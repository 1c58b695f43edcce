//! Decisions of the settings window: when to open it, when to reload what it shows,
//! which thumbnails to decode, and how a picked file becomes a background data URL.
use vstd::prelude::*;
use crate::text::opt_view;
use crate::text::str_eq;
use crate::keyed_map::KeyedMap;
use vstd::string::StringSliceAdditionalSpecFns;

verus! {

/// Whether opening the settings window has to start it: only when it is not running.
pub fn show(window_running: bool) -> (r: bool)
    ensures
        r == !window_running,
{
    !window_running
}

/// Whether the settings window reloads the configuration: once `interval_ms` has
/// passed since the last reload (`elapsed_ms`).
pub fn refresh_due(elapsed_ms: u64, interval_ms: u64) -> (r: bool)
    ensures
        r == (elapsed_ms >= interval_ms),
{
    !(elapsed_ms < interval_ms)
}

/// The number of bytes of `b` after its last `,`, or of all of `b` when it has none.
pub open spec fn bytes_after_last_comma(b: Seq<u8>) -> nat
    decreases b.len(),
{
    if b.len() == 0 || b.last() == 0x2C {
        0
    } else {
        1 + bytes_after_last_comma(b.drop_last())
    }
}

/// The size the settings window shows for a stored background: the bytes of its data
/// URL after the last comma (the encoded picture), or of the whole text without one.
pub fn background_payload_size(url: &str) -> (r: usize)
    ensures
        r == bytes_after_last_comma(url.spec_bytes()),
{
    let b = url.as_bytes();
    let mut i: usize = b.len();
    assert(b@.take(i as int) =~= b@);
    while i > 0 && b[i - 1] != 0x2C
        invariant
            i <= b.len(),
            bytes_after_last_comma(b@) == (b.len() - i) + bytes_after_last_comma(b@.take(i as int)),
        decreases i,
    {
        assert(b@.take(i as int).drop_last() =~= b@.take(i - 1));
        i = i - 1;
    }
    b.len() - i
}

/// True when a thumbnail for `url` is shown or being prepared.
pub open spec fn slot_has<L, P>(url: Seq<char>, loaded: Option<(String, L)>, pending: Option<(String, P)>) -> bool {
    (match loaded {
        Some((l, _)) => l@ == url,
        None => false,
    }) || (match pending {
        Some((p, _)) => p@ == url,
        None => false,
    })
}

/// A slot holds a background exactly when its shown or its pending thumbnail is tagged
/// with that background: an empty slot holds none, so refreshing it asks for its URL.
pub proof fn lemma_slot_holds_only_its_tags<L, P>(u: Seq<char>, loaded: Option<(String, L)>, pending: Option<(String, P)>)
    ensures
        (loaded is None && pending is None) ==> !slot_has(u, loaded, pending),
        (loaded matches Some(l) && l.0@ == u) ==> slot_has(u, loaded, pending),
        (pending matches Some(q) && q.0@ == u) ==> slot_has(u, loaded, pending),
        ((loaded matches Some(l) ==> l.0@ != u) && (pending matches Some(q) ==> q.0@ != u)) ==> !slot_has(
            u,
            loaded,
            pending,
        ),
{
}

/// Brings one thumbnail slot up to date with the background `url` it should show.
/// `loaded` is the thumbnail on screen and `pending` one decoded but not shown yet,
/// each tagged with its URL. Without a URL the slot is emptied; when the URL is
/// already shown or pending nothing changes; otherwise the shown thumbnail is dropped
/// and the URL to decode is returned.
pub fn refresh_slot<L, P>(url: Option<&String>, loaded: &mut Option<(String, L)>, pending: &mut Option<(String, P)>) -> (r: Option<String>)
    ensures
        match url {
            None => *final(loaded) is None && *final(pending) is None && r is None,
            Some(u) => if slot_has(u@, *old(loaded), *old(pending)) {
                *final(loaded) == *old(loaded) && *final(pending) == *old(pending) && r is None
            } else {
                *final(loaded) is None && *final(pending) == *old(pending) && opt_view(r) == Some(u@)
            },
        },
{
    let u = match url {
        Some(u) => u,
        None => {
            *loaded = None;
            *pending = None;
            return None;
        },
    };
    let in_loaded = match loaded {
        Some(l) => str_eq(l.0.as_str(), u.as_str()),
        None => false,
    };
    let in_pending = match pending {
        Some(p) => str_eq(p.0.as_str(), u.as_str()),
        None => false,
    };
    if in_loaded || in_pending {
        return None;
    }
    *loaded = None;
    Some(u.clone())
}

/// Keeps a freshly decoded thumbnail for `url` as the slot's pending one (`decoded`,
/// when decoding succeeded); a failed decode leaves the slot as it was.
pub fn store_decoded<P>(pending: &mut Option<(String, P)>, url: String, decoded: Option<P>)
    ensures
        match decoded {
            Some(img) => *final(pending) == Some((url, img)),
            None => *final(pending) == *old(pending),
        },
{
    match decoded {
        Some(img) => {
            *pending = Some((url, img));
        },
        None => {},
    }
}

/// Keeps a freshly decoded thumbnail for `url` as the pending one of `name`; a failed
/// decode leaves the pending thumbnails as they were.
pub fn store_decoded_for<P>(pending: &mut KeyedMap<(String, P)>, name: String, url: String, decoded: Option<P>)
    ensures
        match decoded {
            Some(img) => final(pending)@ == old(pending)@.insert(name@, (url, img)),
            None => final(pending)@ == old(pending)@,
        },
{
    match decoded {
        Some(img) => pending.insert(name, (url, img)),
        None => {},
    }
}

/// Once the thumbnail for a background is pending, the slot holds that background:
/// refreshing it again for the same background asks for no new decode.
pub proof fn lemma_stored_thumbnail_is_kept<L, P>(url: String, img: P, loaded: Option<(String, L)>)
    ensures
        slot_has(url@, loaded, Some((url, img))),
{
}

/// What a map holds at `k`, if anything.
pub open spec fn entry_at<T>(m: Map<Seq<char>, T>, k: Seq<char>) -> Option<T> {
    if m.dom().contains(k) {
        Some(m[k])
    } else {
        None
    }
}

/// The shown and pending thumbnails after refreshing the slot of name `k` for the
/// background `url`, and the URL to decode, if any: the slot of `refresh_slot`.
pub open spec fn refresh_entry<L, P>(
    url: Option<Seq<char>>,
    loaded: Map<Seq<char>, (String, L)>,
    pending: Map<Seq<char>, (String, P)>,
    k: Seq<char>,
) -> (Map<Seq<char>, (String, L)>, Map<Seq<char>, (String, P)>, Option<Seq<char>>) {
    match url {
        None => (loaded.remove(k), pending.remove(k), None),
        Some(u) => if slot_has(u, entry_at(loaded, k), entry_at(pending, k)) {
            (loaded, pending, None)
        } else {
            (loaded.remove(k), pending, Some(u))
        },
    }
}

/// Refreshing the slot of one name touches no other name; without a background the
/// name's slot is emptied; a slot that holds the background stays as it is; otherwise
/// the shown thumbnail goes, the pending one stays, and the background is to decode.
pub proof fn lemma_refresh_entry_touches_only_its_name<L, P>(
    url: Option<Seq<char>>,
    loaded: Map<Seq<char>, (String, L)>,
    pending: Map<Seq<char>, (String, P)>,
    k: Seq<char>,
    other: Seq<char>,
)
    requires
        other != k,
    ensures
        ({
            let (l, p, d) = refresh_entry(url, loaded, pending, k);
            &&& entry_at(l, other) == entry_at(loaded, other)
            &&& entry_at(p, other) == entry_at(pending, other)
            &&& url is None ==> !l.dom().contains(k) && !p.dom().contains(k) && d is None
            &&& url matches Some(u) ==> if slot_has(u, entry_at(loaded, k), entry_at(pending, k)) {
                l == loaded && p == pending && d is None
            } else {
                !l.dom().contains(k) && p == pending && d == Some(u)
            }
        }),
{
}

/// The shown and pending thumbnails after refreshing the slots of `names` in order,
/// with the backgrounds `urls`, and the (name, URL) pairs to decode, in that order.
pub open spec fn spec_refresh_map<L, P>(
    names: Seq<Seq<char>>,
    urls: Map<Seq<char>, String>,
    loaded: Map<Seq<char>, (String, L)>,
    pending: Map<Seq<char>, (String, P)>,
) -> (Map<Seq<char>, (String, L)>, Map<Seq<char>, (String, P)>, Seq<(Seq<char>, Seq<char>)>)
    decreases names.len(),
{
    if names.len() == 0 {
        (loaded, pending, Seq::empty())
    } else {
        let before = spec_refresh_map(names.drop_last(), urls, loaded, pending);
        let k = names.last();
        let step = refresh_entry(opt_view(entry_at(urls, k)), before.0, before.1, k);
        (step.0, step.1, match step.2 {
            Some(u) => before.2.push((k, u)),
            None => before.2,
        })
    }
}

/// Brings the thumbnails of the named profiles up to date with their backgrounds
/// (`urls`), one slot per name as `refresh_slot` does, and returns the (name, URL)
/// pairs whose thumbnails are to be decoded.
pub fn refresh_map<L, P>(
    names: &Vec<String>,
    urls: &KeyedMap<String>,
    loaded: &mut KeyedMap<(String, L)>,
    pending: &mut KeyedMap<(String, P)>,
) -> (r: Vec<(String, String)>)
    ensures
        ({
            let after = spec_refresh_map(names@.map_values(|n: String| n@), urls@, old(loaded)@, old(pending)@);
            &&& final(loaded)@ == after.0
            &&& final(pending)@ == after.1
            &&& r@.map_values(|e: (String, String)| (e.0@, e.1@)) == after.2
        }),
{
    let ghost ns = names@.map_values(|n: String| n@);
    let ghost l0 = loaded@;
    let ghost p0 = pending@;
    let mut out: Vec<(String, String)> = Vec::new();
    let mut i: usize = 0;
    assert(ns.take(0) =~= Seq::<Seq<char>>::empty());
    while i < names.len()
        invariant
            i <= names.len(),
            ns == names@.map_values(|n: String| n@),
            ({
                let after = spec_refresh_map(ns.take(i as int), urls@, l0, p0);
                &&& loaded@ == after.0
                &&& pending@ == after.1
                &&& out@.map_values(|e: (String, String)| (e.0@, e.1@)) == after.2
            }),
        decreases names.len() - i,
    {
        let ghost k = names@[i as int]@;
        let ghost lb = loaded@;
        let ghost pb = pending@;
        let ghost ob = out@.map_values(|e: (String, String)| (e.0@, e.1@));
        assert(ns.take(i + 1).drop_last() =~= ns.take(i as int));
        assert(ns.take(i + 1).last() == k);
        let name = &names[i];
        let url = urls.get(name.as_str());
        let mut l = loaded.take(name.as_str());
        let mut p = pending.take(name.as_str());
        assert(l == entry_at(lb, k));
        assert(p == entry_at(pb, k));
        let d = refresh_slot(url, &mut l, &mut p);
        match l {
            Some(x) => loaded.insert(name.clone(), x),
            None => {},
        }
        match p {
            Some(x) => pending.insert(name.clone(), x),
            None => {},
        }
        match d {
            Some(u) => out.push((name.clone(), u)),
            None => {},
        }
        proof {
            let step = refresh_entry(opt_view(entry_at(urls@, k)), lb, pb, k);
            match url {
                Some(u) => {
                    assert(opt_view(entry_at(urls@, k)) == Some(u@));
                    if slot_has(u@, entry_at(lb, k), entry_at(pb, k)) {
                        assert(loaded@ =~= lb);
                        assert(pending@ =~= pb);
                    } else {
                        assert(loaded@ =~= lb.remove(k));
                        assert(pending@ =~= pb);
                        assert(out@.map_values(|e: (String, String)| (e.0@, e.1@)) =~= ob.push((k, u@)));
                    }
                },
                None => {
                    assert(opt_view(entry_at(urls@, k)) is None);
                    assert(loaded@ =~= lb.remove(k));
                    assert(pending@ =~= pb.remove(k));
                },
            }
            assert(loaded@ == step.0);
            assert(pending@ == step.1);
        }
        i = i + 1;
    }
    assert(ns.take(names.len() as int) =~= ns);
    out
}

/// The extension of a file path as `Path::extension` reads it.
pub uninterp spec fn path_extension(path: Seq<char>) -> Option<Seq<char>>;

/// Calls `Path::extension` and converts it to a string. The contract only names the
/// result; the rules for what counts as an extension are not stated here.
#[verifier::external_body]
fn extension_of(path: &str) -> (r: Option<String>)
    ensures
        opt_view(r) == path_extension(path@),
{
    match std::path::Path::new(path).extension() {
        Some(e) => match e.to_str() {
            Some(s) => Some(s.to_string()),
            None => None,
        },
        None => None,
    }
}

/// The character of the standard base64 alphabet (`A`-`Z`, `a`-`z`, `0`-`9`, `+`, `/`)
/// for a six-bit value.
pub open spec fn base64_char(v: int) -> char {
    if v < 26 {
        (65 + v) as char
    } else if v < 52 {
        (97 + v - 26) as char
    } else if v < 62 {
        (48 + v - 52) as char
    } else if v == 62 {
        '+'
    } else {
        '/'
    }
}

/// Standard base64 of `bytes`, padded with `=`: each group of three bytes becomes four
/// characters, and a last group of one or two bytes is padded to four.
pub open spec fn base64_standard(bytes: Seq<u8>) -> Seq<char>
    decreases bytes.len(),
{
    if bytes.len() == 0 {
        Seq::empty()
    } else if bytes.len() == 1 {
        let a = bytes[0] as int;
        seq![base64_char(a / 4), base64_char((a % 4) * 16), '=', '=']
    } else if bytes.len() == 2 {
        let a = bytes[0] as int;
        let b = bytes[1] as int;
        seq![base64_char(a / 4), base64_char((a % 4) * 16 + b / 16), base64_char((b % 16) * 4), '=']
    } else {
        let a = bytes[0] as int;
        let b = bytes[1] as int;
        let c = bytes[2] as int;
        seq![base64_char(a / 4), base64_char((a % 4) * 16 + b / 16), base64_char((b % 16) * 4 + c / 64), base64_char(c % 64)]
            + base64_standard(bytes.skip(3))
    }
}

/// Calls `Engine::encode` of `base64`'s `STANDARD` engine, which encodes with the
/// standard alphabet and `=` padding. The encoder panics when the encoded length
/// overflows `usize`, which the bound on the input rules out.
#[verifier::external_body]
fn base64_encode(bytes: &[u8]) -> (r: String)
    requires
        bytes@.len() <= usize::MAX / 2,
    ensures
        r@ == base64_standard(bytes@),
{
    base64::Engine::encode(&base64::engine::general_purpose::STANDARD, bytes)
}

/// The MIME type of a picked image file: PNG for a `png` extension, JPEG otherwise.
pub open spec fn spec_mime_for_extension(ext: Option<Seq<char>>) -> Seq<char> {
    if ext == Some("png"@) { "image/png"@ } else { "image/jpeg"@ }
}

/// The data URL of an image file at `path` whose content is `bytes`.
pub open spec fn spec_file_data_url(path: Seq<char>, bytes: Seq<u8>) -> Seq<char> {
    "data:"@ + spec_mime_for_extension(path_extension(path)) + ";base64,"@ + base64_standard(bytes)
}

/// A picked file becomes a PNG data URL exactly when its extension is `png`, and a JPEG
/// one for any other extension (`jpg`, `jpeg`, ...) or none; the body is the base64 of
/// the file's bytes.
pub proof fn lemma_data_url_type_follows_extension(path: Seq<char>, bytes: Seq<u8>)
    ensures
        path_extension(path) == Some("png"@) ==> spec_file_data_url(path, bytes) == "data:image/png;base64,"@
            + base64_standard(bytes),
        path_extension(path) != Some("png"@) ==> spec_file_data_url(path, bytes) == "data:image/jpeg;base64,"@
            + base64_standard(bytes),
{
    reveal_strlit("data:");
    reveal_strlit("image/png");
    reveal_strlit("image/jpeg");
    reveal_strlit(";base64,");
    reveal_strlit("data:image/png;base64,");
    reveal_strlit("data:image/jpeg;base64,");
    assert("data:"@ + "image/png"@ + ";base64,"@ =~= "data:image/png;base64,"@);
    assert("data:"@ + "image/jpeg"@ + ";base64,"@ =~= "data:image/jpeg;base64,"@);
}

/// Turns a picked image file into the data URL stored as a background.
pub fn encode_file_as_data_url(path: &str, bytes: &[u8]) -> (r: String)
    requires
        bytes@.len() <= usize::MAX / 2,
    ensures
        r@ == spec_file_data_url(path@, bytes@),
{
    let ext = extension_of(path);
    let is_png = match &ext {
        Some(e) => str_eq(e.as_str(), "png"),
        None => false,
    };
    let mime = if is_png { "image/png" } else { "image/jpeg" };
    let b64 = base64_encode(bytes);
    let r = String::from_str("data:").concat(mime).concat(";base64,").concat(b64.as_str());
    proof {
        if is_png {
            assert(opt_view(ext) == Some("png"@));
        } else {
            assert(opt_view(ext) != Some("png"@));
        }
    }
    r
}

} // verus!
