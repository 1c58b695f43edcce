//! Wire format of the background layer, which the device reaches through raw HID
//! writes: a command packet (`CRT` .. `BGPIC` / `BGCLE`) followed, for pictures,
//! by the JPEG payload cut into fixed-size reports.
use vstd::prelude::*;

verus! {

/// Payload bytes carried by one report; each report is one 0x00 report-id byte
/// followed by this many bytes.
pub const REPORT_PAYLOAD: usize = 1024;

/// Big-endian bytes of a 16-bit value.
pub open spec fn be16(v: u16) -> Seq<u8> {
    seq![(v / 256) as u8, (v % 256) as u8]
}

/// Big-endian bytes of a 32-bit value.
pub open spec fn be32(v: u32) -> Seq<u8> {
    seq![(v / 16777216) as u8, ((v / 65536) % 256) as u8, ((v / 256) % 256) as u8, (v % 256) as u8]
}

/// The common prefix of background commands: report id 0x00, `CRT`, two zero bytes.
pub open spec fn command_prefix() -> Seq<u8> {
    seq![0x00u8, 0x43u8, 0x52u8, 0x54u8, 0x00u8, 0x00u8]
}

/// `BGPIC`
pub open spec fn bgpic() -> Seq<u8> {
    seq![0x42u8, 0x47u8, 0x50u8, 0x49u8, 0x43u8]
}

/// `BGCLE`
pub open spec fn bgcle() -> Seq<u8> {
    seq![0x42u8, 0x47u8, 0x43u8, 0x4Cu8, 0x45u8]
}

/// The command that announces `data_len` bytes of JPEG for the rectangle at (x, y)
/// of size width x height on layer `fb_layer`; the length is sent modulo 2^32.
pub open spec fn spec_background_header(data_len: nat, x: u16, y: u16, width: u16, height: u16, fb_layer: u8) -> Seq<u8> {
    command_prefix() + bgpic() + be32((data_len % 0x1_0000_0000) as u32) + be16(x) + be16(y) + be16(width) + be16(
        height,
    ) + seq![fb_layer]
}

/// The command that clears layer `fb_layer`.
pub open spec fn spec_clear_background_packet(fb_layer: u8) -> Seq<u8> {
    command_prefix() + bgcle() + seq![fb_layer]
}

/// Number of reports needed for `len` payload bytes.
pub open spec fn packet_count(len: nat) -> nat {
    ((len + REPORT_PAYLOAD - 1) / (REPORT_PAYLOAD as int)) as nat
}

pub open spec fn chunk_end(len: nat, i: nat) -> nat {
    if (i + 1) * REPORT_PAYLOAD as nat <= len { (i + 1) * REPORT_PAYLOAD as nat } else { len }
}

/// Report `i` of a payload: the report id, the i-th 1024-byte chunk, zero padding.
pub open spec fn image_packet(data: Seq<u8>, i: nat) -> Seq<u8> {
    let start = i * REPORT_PAYLOAD as nat;
    let end = chunk_end(data.len(), i);
    seq![0x00u8] + data.subrange(start as int, end as int) + Seq::new(
        (REPORT_PAYLOAD - (end - start)) as nat,
        |k: int| 0u8,
    )
}

/// The big-endian number held by two bytes at `off`.
pub open spec fn read_be16(s: Seq<u8>, off: int) -> int {
    s[off] * 256 + s[off + 1]
}

/// The big-endian number held by four bytes at `off`.
pub open spec fn read_be32(s: Seq<u8>, off: int) -> int {
    s[off] * 16777216 + s[off + 1] * 65536 + s[off + 2] * 256 + s[off + 3]
}

/// The `BGPIC` command is 24 bytes and a reader finds in it, at fixed offsets, the
/// payload length (modulo 2^32), the position, the size and the layer it was built from.
pub proof fn lemma_background_header_fields(data_len: nat, x: u16, y: u16, width: u16, height: u16, fb_layer: u8)
    ensures
        ({
            let h = spec_background_header(data_len, x, y, width, height, fb_layer);
            &&& h.len() == 24
            &&& h.subrange(0, 6) == command_prefix()
            &&& h.subrange(6, 11) == bgpic()
            &&& read_be32(h, 11) == data_len % 0x1_0000_0000
            &&& read_be16(h, 15) == x
            &&& read_be16(h, 17) == y
            &&& read_be16(h, 19) == width
            &&& read_be16(h, 21) == height
            &&& h[23] == fb_layer
        }),
{
    let h = spec_background_header(data_len, x, y, width, height, fb_layer);
    assert(h.subrange(0, 6) =~= command_prefix());
    assert(h.subrange(6, 11) =~= bgpic());
}

/// The `BGCLE` command is 12 bytes and names the layer it clears in its last byte.
pub proof fn lemma_clear_packet_fields(fb_layer: u8)
    ensures
        ({
            let p = spec_clear_background_packet(fb_layer);
            &&& p.len() == 12
            &&& p.subrange(0, 6) == command_prefix()
            &&& p.subrange(6, 11) == bgcle()
            &&& p[11] == fb_layer
        }),
{
    let p = spec_clear_background_packet(fb_layer);
    assert(p.subrange(0, 6) =~= command_prefix());
    assert(p.subrange(6, 11) =~= bgcle());
}

/// Every report of a payload is 1025 bytes and starts with report id 0x00.
pub proof fn lemma_image_packet_shape(data: Seq<u8>, i: nat)
    requires
        i < packet_count(data.len()),
    ensures
        image_packet(data, i).len() == REPORT_PAYLOAD + 1,
        image_packet(data, i)[0] == 0x00u8,
{
}

/// The payload bytes of the first `n` reports, one after another.
pub open spec fn payloads(data: Seq<u8>, n: nat) -> Seq<u8>
    decreases n,
{
    if n == 0 {
        Seq::empty()
    } else {
        payloads(data, (n - 1) as nat) + image_packet(data, (n - 1) as nat).subrange(1, REPORT_PAYLOAD + 1)
    }
}

proof fn lemma_payloads_prefix(data: Seq<u8>, n: nat)
    requires
        n <= packet_count(data.len()),
    ensures
        payloads(data, n).len() == n * REPORT_PAYLOAD,
        ({
            let m = if n * REPORT_PAYLOAD <= data.len() { n * REPORT_PAYLOAD } else { data.len() as int };
            payloads(data, n).subrange(0, m) == data.subrange(0, m)
        }),
    decreases n,
{
    if n > 0 {
        let k = (n - 1) as nat;
        lemma_payloads_prefix(data, k);
        lemma_image_packet_shape(data, k);
        let start = k * REPORT_PAYLOAD;
        let end = chunk_end(data.len(), k);
        let pk = image_packet(data, k).subrange(1, REPORT_PAYLOAD + 1);
        assert(pk.subrange(0, end - start) =~= data.subrange(start as int, end as int));
        let m = if n * REPORT_PAYLOAD <= data.len() { n * REPORT_PAYLOAD } else { data.len() as int };
        assert(m == end);
        assert(payloads(data, n).subrange(0, m) =~= payloads(data, k).subrange(0, start as int) + pk.subrange(
            0,
            end - start,
        ));
        assert(data.subrange(0, m) =~= data.subrange(0, start as int) + data.subrange(start as int, end as int));
    }
}

/// Reassembling the payloads of all reports and dropping the zero padding gives back
/// exactly the picture that was cut up.
pub proof fn lemma_image_packets_reassemble(data: Seq<u8>)
    ensures
        payloads(data, packet_count(data.len())).subrange(0, data.len() as int) == data,
{
    lemma_payloads_prefix(data, packet_count(data.len()));
    assert(data.subrange(0, data.len() as int) =~= data);
}

fn push_be16(buf: &mut Vec<u8>, v: u16)
    ensures
        final(buf)@ == old(buf)@ + be16(v),
{
    buf.push((v / 256) as u8);
    buf.push((v % 256) as u8);
    assert(final(buf)@ =~= old(buf)@ + be16(v));
}

fn push_be32(buf: &mut Vec<u8>, v: u32)
    ensures
        final(buf)@ == old(buf)@ + be32(v),
{
    buf.push((v / 16777216) as u8);
    buf.push(((v / 65536) % 256) as u8);
    buf.push(((v / 256) % 256) as u8);
    buf.push((v % 256) as u8);
    assert(final(buf)@ =~= old(buf)@ + be32(v));
}

fn command_start(tag: [u8; 5]) -> (r: Vec<u8>)
    ensures
        r@ == command_prefix() + tag@,
{
    let mut buf: Vec<u8> = Vec::new();
    buf.push(0x00);
    buf.push(0x43);
    buf.push(0x52);
    buf.push(0x54);
    buf.push(0x00);
    buf.push(0x00);
    let mut i: usize = 0;
    while i < 5
        invariant
            0 <= i <= 5,
            buf@ == command_prefix() + tag@.subrange(0, i as int),
        decreases 5 - i,
    {
        buf.push(tag[i]);
        assert(tag@.subrange(0, i + 1) =~= tag@.subrange(0, i as int).push(tag@[i as int]));
        assert(buf@ =~= command_prefix() + tag@.subrange(0, i + 1));
        i = i + 1;
    }
    assert(tag@.subrange(0, 5) =~= tag@);
    buf
}

/// Builds the `BGPIC` command that precedes a background picture of `data_len` bytes.
pub fn background_header(data_len: usize, x: u16, y: u16, width: u16, height: u16, fb_layer: u8) -> (r: Vec<u8>)
    ensures
        r@ == spec_background_header(data_len as nat, x, y, width, height, fb_layer),
{
    let mut header = command_start([0x42, 0x47, 0x50, 0x49, 0x43]);
    assert(header@ =~= command_prefix() + bgpic());
    let len32: u32 = ((data_len as u64) % 0x1_0000_0000u64) as u32;
    push_be32(&mut header, len32);
    push_be16(&mut header, x);
    push_be16(&mut header, y);
    push_be16(&mut header, width);
    push_be16(&mut header, height);
    header.push(fb_layer);
    assert(header@ =~= spec_background_header(data_len as nat, x, y, width, height, fb_layer));
    header
}

/// Builds the `BGCLE` command that clears layer `fb_layer`.
pub fn clear_background_packet(fb_layer: u8) -> (r: Vec<u8>)
    ensures
        r@ == spec_clear_background_packet(fb_layer),
{
    let mut buf = command_start([0x42, 0x47, 0x43, 0x4C, 0x45]);
    assert(buf@ =~= command_prefix() + bgcle());
    buf.push(fb_layer);
    assert(buf@ =~= spec_clear_background_packet(fb_layer));
    buf
}

/// Cuts a picture into reports: each is 0x00 followed by the next 1024 bytes of
/// `data`, the last one padded with zeros. Empty data gives no report.
pub fn image_data_packets(data: &[u8]) -> (r: Vec<Vec<u8>>)
    ensures
        r.len() == packet_count(data@.len()),
        forall|i: int| 0 <= i < r.len() ==> #[trigger] r[i]@ == image_packet(data@, i as nat),
{
    let len = data.len();
    let mut packets: Vec<Vec<u8>> = Vec::new();
    let mut start: usize = 0;
    while start < len
        invariant
            len == data@.len(),
            start <= len,
            start < len ==> start == packets.len() * REPORT_PAYLOAD,
            packets.len() == packet_count(start as nat),
            forall|i: int| 0 <= i < packets.len() ==> #[trigger] packets[i]@ == image_packet(data@, i as nat),
        decreases len - start,
    {
        let ghost n = packets.len() as nat;
        let end: usize = if len - start > REPORT_PAYLOAD { start + REPORT_PAYLOAD } else { len };
        assert(end == chunk_end(len as nat, n));
        let mut pkt: Vec<u8> = Vec::new();
        pkt.push(0x00);
        let mut j: usize = start;
        while j < end
            invariant
                start <= j <= end <= len,
                len == data@.len(),
                pkt@ == seq![0x00u8] + data@.subrange(start as int, j as int),
            decreases end - j,
        {
            pkt.push(data[j]);
            assert(data@.subrange(start as int, j + 1) =~= data@.subrange(start as int, j as int).push(data@[j as int]));
            j = j + 1;
        }
        let ghost body = pkt@;
        while pkt.len() < REPORT_PAYLOAD + 1
            invariant
                pkt.len() <= REPORT_PAYLOAD + 1,
                body.len() <= pkt.len(),
                pkt@ == body + Seq::new((pkt.len() - body.len()) as nat, |k: int| 0u8),
            decreases REPORT_PAYLOAD + 1 - pkt.len(),
        {
            let ghost before = pkt@;
            pkt.push(0x00);
            assert(pkt@ =~= body + Seq::new((pkt.len() - body.len()) as nat, |k: int| 0u8));
        }
        assert(pkt@ =~= image_packet(data@, n));
        packets.push(pkt);
        start = end;
    }
    packets
}

} // verus!
