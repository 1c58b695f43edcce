//! Which OpenDeck profile each device is on, and the profile list shown in the settings window.
use vstd::prelude::*;
use crate::keyed_map::KeyedMap;
use crate::text::{opt_view, str_eq};

verus! {

/// Whether `c` has the Unicode `White_Space` property, the whitespace that
/// `char::is_whitespace` and `str::trim` go by.
pub open spec fn is_white_space(c: char) -> bool {
    let n = c as int;
    ||| 0x09 <= n <= 0x0D
    ||| n == 0x20
    ||| n == 0x85
    ||| n == 0xA0
    ||| n == 0x1680
    ||| 0x2000 <= n <= 0x200A
    ||| n == 0x2028
    ||| n == 0x2029
    ||| n == 0x202F
    ||| n == 0x205F
    ||| n == 0x3000
}

/// `s` without its leading whitespace.
pub open spec fn trim_start(s: Seq<char>) -> Seq<char>
    decreases s.len(),
{
    if s.len() > 0 && is_white_space(s[0]) {
        trim_start(s.drop_first())
    } else {
        s
    }
}

/// `s` without its trailing whitespace.
pub open spec fn trim_end(s: Seq<char>) -> Seq<char>
    decreases s.len(),
{
    if s.len() > 0 && is_white_space(s.last()) {
        trim_end(s.drop_last())
    } else {
        s
    }
}

/// The text of `s` without leading and trailing whitespace, as `str::trim` computes it.
pub open spec fn trimmed(s: Seq<char>) -> Seq<char> {
    trim_end(trim_start(s))
}

/// Calls `str::trim` and copies the result: `s` without leading and trailing
/// `White_Space` characters.
#[verifier::external_body]
fn trim(s: &str) -> (r: String)
    ensures
        r@ == trimmed(s@),
{
    s.trim().to_string()
}

/// `s` in lower case, as `str::to_lowercase` computes it.
pub uninterp spec fn lowercased(s: Seq<char>) -> Seq<char>;

/// Calls `str::to_lowercase`; the contract only names the result.
#[verifier::external_body]
fn to_lowercase(s: &str) -> (r: String)
    ensures
        r@ == lowercased(s@),
{
    s.to_lowercase()
}

/// Lexicographic order of strings by code point, which is how `str` values compare.
pub open spec fn lex_lt(a: Seq<char>, b: Seq<char>) -> bool
    decreases a.len(),
{
    if a.len() == 0 {
        b.len() > 0
    } else if b.len() == 0 {
        false
    } else if a[0] != b[0] {
        (a[0] as u32) < (b[0] as u32)
    } else {
        lex_lt(a.drop_first(), b.drop_first())
    }
}

/// Profile names are ordered by their lower-case form.
pub open spec fn key_lt(a: Seq<char>, b: Seq<char>) -> bool {
    lex_lt(lowercased(a), lowercased(b))
}

/// Inserts `x` after every element whose key is not greater than its own.
pub open spec fn insert_sorted(s: Seq<Seq<char>>, x: Seq<char>) -> Seq<Seq<char>>
    decreases s.len(),
{
    if s.len() == 0 {
        seq![x]
    } else if key_lt(x, s[0]) {
        seq![x] + s
    } else {
        seq![s[0]] + insert_sorted(s.drop_first(), x)
    }
}

/// The stable sort of `s` by lower-case key: sorted, equal keys in their original order.
pub open spec fn sort_by_lowercase(s: Seq<Seq<char>>) -> Seq<Seq<char>>
    decreases s.len(),
{
    if s.len() == 0 {
        Seq::empty()
    } else {
        insert_sorted(sort_by_lowercase(s.drop_last()), s.last())
    }
}

/// The profile name that a profile file name stands for: the name without `.json`.
pub open spec fn json_stem(name: Seq<char>) -> Option<Seq<char>> {
    if name.len() >= 5 && name.subrange(name.len() - 5, name.len() as int) == ".json"@ {
        Some(name.subrange(0, name.len() - 5))
    } else {
        None
    }
}

/// The profile names among a directory's file names, in directory order.
pub open spec fn json_stems(names: Seq<Seq<char>>) -> Seq<Seq<char>>
    decreases names.len(),
{
    if names.len() == 0 {
        Seq::empty()
    } else {
        let rest = json_stems(names.drop_last());
        match json_stem(names.last()) {
            Some(st) => rest.push(st),
            None => rest,
        }
    }
}

pub open spec fn strings_view(v: Seq<String>) -> Seq<Seq<char>> {
    v.map_values(|s: String| s@)
}

/// Compares two strings in `str` order.
pub fn str_lt(a: &str, b: &str) -> (r: bool)
    ensures
        r == lex_lt(a@, b@),
{
    let la = a.unicode_len();
    let lb = b.unicode_len();
    let mut i: usize = 0;
    assert(a@.skip(0) =~= a@);
    assert(b@.skip(0) =~= b@);
    assert(a@.subrange(0, 0) =~= b@.subrange(0, 0));
    while i < la && i < lb
        invariant
            la == a@.len(),
            lb == b@.len(),
            i <= la,
            i <= lb,
            a@.subrange(0, i as int) == b@.subrange(0, i as int),
            lex_lt(a@, b@) == lex_lt(a@.skip(i as int), b@.skip(i as int)),
        decreases la - i,
    {
        let ca = a.get_char(i);
        let cb = b.get_char(i);
        assert(a@.skip(i as int)[0] == ca && b@.skip(i as int)[0] == cb);
        if ca != cb {
            return (ca as u32) < (cb as u32);
        }
        assert(a@.skip(i as int).drop_first() =~= a@.skip(i + 1));
        assert(b@.skip(i as int).drop_first() =~= b@.skip(i + 1));
        assert(a@.subrange(0, i + 1) =~= a@.subrange(0, i as int).push(ca));
        assert(b@.subrange(0, i + 1) =~= b@.subrange(0, i as int).push(cb));
        i = i + 1;
    }
    i == la && i < lb
}

/// The name of a profile file without its `.json` suffix; other files are no profiles.
pub fn strip_json_suffix(name: &str) -> (r: Option<String>)
    ensures
        opt_view(r) == json_stem(name@),
{
    let n = name.unicode_len();
    if n < 5 {
        return None;
    }
    let tail = name.substring_char(n - 5, n);
    proof {
        reveal_strlit(".json");
    }
    if str_eq(tail, ".json") {
        Some(String::from_str(name.substring_char(0, n - 5)))
    } else {
        None
    }
}

proof fn lemma_insert_sorted_skip(s: Seq<Seq<char>>, x: Seq<char>, j: int)
    requires
        0 <= j <= s.len(),
        forall|k: int| 0 <= k < j ==> !key_lt(x, #[trigger] s[k]),
    ensures
        insert_sorted(s, x) == s.take(j) + insert_sorted(s.skip(j), x),
    decreases j,
{
    if j > 0 {
        lemma_insert_sorted_skip(s.drop_first(), x, j - 1);
        assert(s.drop_first().take(j - 1) =~= s.take(j).drop_first());
        assert(s.drop_first().skip(j - 1) =~= s.skip(j));
        assert(s.take(j) =~= seq![s[0]] + s.take(j).drop_first());
        assert(seq![s[0]] + (s.take(j).drop_first() + insert_sorted(s.skip(j), x)) =~= s.take(j) + insert_sorted(s.skip(j), x));
    } else {
        assert(s.take(0) =~= Seq::<Seq<char>>::empty());
        assert(s.skip(0) =~= s);
        assert(Seq::<Seq<char>>::empty() + insert_sorted(s, x) =~= insert_sorted(s, x));
    }
}

/// The profile names found among a profile directory's file names: every `NAME.json`
/// gives `NAME`, and the names come sorted by their lower-case form, names with the
/// same lower-case form in directory order.
pub fn list(file_names: &Vec<String>) -> (r: Vec<String>)
    ensures
        strings_view(r@) == sort_by_lowercase(json_stems(strings_view(file_names@))),
{
    let mut stems: Vec<String> = Vec::new();
    let mut i: usize = 0;
    while i < file_names.len()
        invariant
            i <= file_names@.len(),
            strings_view(stems@) == json_stems(strings_view(file_names@.take(i as int))),
        decreases file_names@.len() - i,
    {
        let ghost before = stems@;
        match strip_json_suffix(file_names[i].as_str()) {
            Some(st) => stems.push(st),
            None => {},
        }
        proof {
            let t = strings_view(file_names@.take(i + 1));
            assert(t.drop_last() =~= strings_view(file_names@.take(i as int)));
            assert(t.last() == file_names@[i as int]@);
            assert(strings_view(stems@) =~= json_stems(t));
        }
        i = i + 1;
    }
    assert(file_names@.take(file_names@.len() as int) =~= file_names@);
    let mut sorted: Vec<String> = Vec::new();
    let mut keys: Vec<String> = Vec::new();
    let mut i: usize = 0;
    while i < stems.len()
        invariant
            i <= stems@.len(),
            keys@.len() == sorted@.len(),
            forall|k: int| 0 <= k < keys@.len() ==> #[trigger] keys@[k]@ == lowercased(sorted@[k]@),
            strings_view(sorted@) == sort_by_lowercase(strings_view(stems@.take(i as int))),
        decreases stems@.len() - i,
    {
        let x = stems[i].clone();
        let kx = to_lowercase(x.as_str());
        let ghost s = strings_view(sorted@);
        let mut j: usize = 0;
        while j < sorted.len() && !str_lt(kx.as_str(), keys[j].as_str())
            invariant
                j <= sorted@.len(),
                keys@.len() == sorted@.len(),
                s == strings_view(sorted@),
                kx@ == lowercased(x@),
                forall|k: int| 0 <= k < keys@.len() ==> #[trigger] keys@[k]@ == lowercased(sorted@[k]@),
                forall|k: int| 0 <= k < j ==> !key_lt(x@, #[trigger] s[k]),
            decreases sorted@.len() - j,
        {
            assert(s[j as int] == sorted@[j as int]@);
            j = j + 1;
        }
        proof {
            lemma_insert_sorted_skip(s, x@, j as int);
            if j < sorted.len() {
                assert(s[j as int] == sorted@[j as int]@);
                assert(s.skip(j as int)[0] == s[j as int]);
                assert(insert_sorted(s.skip(j as int), x@) == seq![x@] + s.skip(j as int));
            } else {
                assert(s.skip(j as int) =~= Seq::<Seq<char>>::empty());
            }
        }
        let ghost sorted_before = sorted@;
        let ghost keys_before = keys@;
        sorted.insert(j, x);
        keys.insert(j, kx);
        proof {
            let t = strings_view(stems@.take(i + 1));
            assert(t.drop_last() =~= strings_view(stems@.take(i as int)));
            assert(t.last() == stems@[i as int]@);
            assert(strings_view(sorted@) =~= s.take(j as int) + insert_sorted(s.skip(j as int), x@));
            assert forall|k: int| 0 <= k < keys@.len() implies #[trigger] keys@[k]@ == lowercased(sorted@[k]@) by {
                if k > j as int {
                    assert(keys@[k] == keys_before[k - 1]);
                    assert(sorted@[k] == sorted_before[k - 1]);
                } else if k < j as int {
                    assert(keys@[k] == keys_before[k]);
                    assert(sorted@[k] == sorted_before[k]);
                }
            }
        }
        i = i + 1;
    }
    assert(stems@.take(stems@.len() as int) =~= stems@);
    sorted
}

/// True when no element's key is smaller than that of an element before it.
pub open spec fn sorted_by_key(s: Seq<Seq<char>>) -> bool {
    forall|i: int, j: int| 0 <= i < j < s.len() ==> !key_lt(#[trigger] s[j], #[trigger] s[i])
}

proof fn lemma_lex_irreflexive(a: Seq<char>)
    ensures
        !lex_lt(a, a),
    decreases a.len(),
{
    if a.len() > 0 {
        lemma_lex_irreflexive(a.drop_first());
    }
}

proof fn lemma_lex_transitive(a: Seq<char>, b: Seq<char>, c: Seq<char>)
    requires
        lex_lt(a, b),
        lex_lt(b, c),
    ensures
        lex_lt(a, c),
    decreases a.len(),
{
    if a.len() > 0 && b.len() > 0 && c.len() > 0 && a[0] == b[0] && b[0] == c[0] {
        lemma_lex_transitive(a.drop_first(), b.drop_first(), c.drop_first());
    }
}

/// Where `insert_sorted` puts `x`: before the first element whose key is greater.
pub open spec fn insert_pos(s: Seq<Seq<char>>, x: Seq<char>) -> int
    decreases s.len(),
{
    if s.len() == 0 {
        0
    } else if key_lt(x, s[0]) {
        0
    } else {
        1 + insert_pos(s.drop_first(), x)
    }
}

proof fn lemma_insert_sorted_at(s: Seq<Seq<char>>, x: Seq<char>)
    ensures
        0 <= insert_pos(s, x) <= s.len(),
        insert_sorted(s, x) == s.insert(insert_pos(s, x), x),
        forall|k: int| 0 <= k < insert_pos(s, x) ==> !key_lt(x, #[trigger] s[k]),
        insert_pos(s, x) < s.len() ==> key_lt(x, s[insert_pos(s, x)]),
    decreases s.len(),
{
    if s.len() == 0 {
        assert(s.insert(0, x) =~= seq![x]);
    } else if key_lt(x, s[0]) {
        assert(s.insert(0, x) =~= seq![x] + s);
    } else {
        let t = s.drop_first();
        lemma_insert_sorted_at(t, x);
        let p = insert_pos(t, x);
        assert(s.insert(p + 1, x) =~= seq![s[0]] + t.insert(p, x));
        assert forall|k: int| 0 <= k < insert_pos(s, x) implies !key_lt(x, #[trigger] s[k]) by {
            if k > 0 {
                assert(s[k] == t[k - 1]);
            }
        }
    }
}

/// Inserting into a sorted list keeps it sorted.
pub proof fn lemma_insert_sorted_keeps_order(s: Seq<Seq<char>>, x: Seq<char>)
    requires
        sorted_by_key(s),
    ensures
        sorted_by_key(insert_sorted(s, x)),
        insert_sorted(s, x).to_multiset() == s.to_multiset().insert(x),
{
    lemma_insert_sorted_at(s, x);
    let p = insert_pos(s, x);
    let r = insert_sorted(s, x);
    vstd::seq_lib::to_multiset_insert(s, p, x);
    assert forall|i: int, j: int| 0 <= i < j < r.len() implies !key_lt(#[trigger] r[j], #[trigger] r[i]) by {
        if j < p {
            assert(r[i] == s[i] && r[j] == s[j]);
        } else if j == p {
            assert(r[i] == s[i] && r[j] == x);
        } else if i < p {
            assert(r[i] == s[i] && r[j] == s[j - 1]);
        } else if i == p {
            assert(r[i] == x && r[j] == s[j - 1]);
            if key_lt(s[j - 1], x) {
                lemma_lex_transitive(lowercased(s[j - 1]), lowercased(x), lowercased(s[p]));
                if j - 1 == p {
                    lemma_lex_irreflexive(lowercased(s[p]));
                }
            }
        } else {
            assert(r[i] == s[i - 1] && r[j] == s[j - 1]);
        }
    }
}

/// The profile list is sorted by lower-case name and holds exactly the names it was
/// built from, each as often as it occurred.
pub proof fn lemma_sort_by_lowercase_sorted(s: Seq<Seq<char>>)
    ensures
        sorted_by_key(sort_by_lowercase(s)),
        sort_by_lowercase(s).to_multiset() == s.to_multiset(),
    decreases s.len(),
{
    broadcast use vstd::seq_lib::group_to_multiset_ensures;
    if s.len() > 0 {
        lemma_sort_by_lowercase_sorted(s.drop_last());
        lemma_insert_sorted_keeps_order(sort_by_lowercase(s.drop_last()), s.last());
        assert(s.drop_last().push(s.last()) =~= s);
    } else {
        assert(sort_by_lowercase(s) =~= s);
    }
}

/// The sort is stable: a name found after the others lands after every earlier name
/// whose lower-case form is not greater than its own, so names with the same
/// lower-case form keep the order in which they were found.
pub proof fn lemma_sort_by_lowercase_stable(s: Seq<Seq<char>>, x: Seq<char>)
    ensures
        sort_by_lowercase(s.push(x)) == insert_sorted(sort_by_lowercase(s), x),
        forall|k: int|
            0 <= k < insert_pos(sort_by_lowercase(s), x) ==> !key_lt(x, #[trigger] sort_by_lowercase(s)[k]),
{
    assert(s.push(x).drop_last() =~= s);
    lemma_insert_sorted_at(sort_by_lowercase(s), x);
}

/// The active profile of each device, and the profile most recently switched to.
pub struct ProfileTracker {
    pub current: KeyedMap<String>,
    pub last: Option<String>,
}

impl ProfileTracker {
    /// Nothing known yet.
    pub fn new() -> (r: Self)
        ensures
            r.current@ == Map::<Seq<char>, String>::empty(),
            r.last is None,
    {
        ProfileTracker { current: KeyedMap::new(), last: None }
    }

    /// Records that `device` switched to `profile`; returns the profile it was on before.
    pub fn set(&mut self, device: String, profile: String) -> (r: Option<String>)
        ensures
            final(self).current@ == old(self).current@.insert(device@, profile),
            final(self).last == Some(profile),
            opt_view(r) == (if old(self).current@.dom().contains(device@) {
                Some(old(self).current@[device@]@)
            } else {
                None
            }),
    {
        let old_profile = self.get(device.as_str());
        let last = profile.clone();
        self.current.insert(device, profile);
        self.last = Some(last);
        old_profile
    }

    /// The profile `device` is on, if known.
    pub fn get(&self, device: &str) -> (r: Option<String>)
        ensures
            opt_view(r) == (if self.current@.dom().contains(device@) {
                Some(self.current@[device@]@)
            } else {
                None
            }),
    {
        match self.current.get(device) {
            Some(p) => Some(p.clone()),
            None => None,
        }
    }

    pub open spec fn spec_current(&self, file_text: Option<Seq<char>>) -> Option<Seq<char>> {
        match self.last {
            Some(p) => Some(p@),
            None => match file_text {
                Some(t) => Some(trimmed(t)),
                None => None,
            },
        }
    }

    /// The profile most recently switched to; before any switch, what the active
    /// profile file holds (`file_text`, if it could be read), trimmed.
    pub fn current(&self, file_text: Option<String>) -> (r: Option<String>)
        ensures
            opt_view(r) == self.spec_current(opt_view(file_text)),
    {
        match &self.last {
            Some(p) => Some(p.clone()),
            None => match file_text {
                Some(t) => Some(trim(t.as_str())),
                None => None,
            },
        }
    }
}

pub open spec fn spec_detect_profile_change(selected: Option<Seq<char>>, known: Option<Seq<char>>) -> Option<Seq<char>> {
    match selected {
        Some(p) => if known == Some(p) { None } else { Some(p) },
        None => None,
    }
}

/// Compares the profile OpenDeck has selected for a device (`selected`, read from its
/// profile file) with the one known for it: returns the new profile to switch to, or
/// `None` when nothing was selected or nothing changed.
pub fn detect_profile_change(selected: Option<String>, known: Option<String>) -> (r: Option<String>)
    ensures
        opt_view(r) == spec_detect_profile_change(opt_view(selected), opt_view(known)),
{
    match selected {
        Some(p) => {
            let same = match &known {
                Some(k) => str_eq(k.as_str(), p.as_str()),
                None => false,
            };
            if same {
                None
            } else {
                Some(p)
            }
        },
        None => None,
    }
}

/// The string value of the top-level field `field` of the JSON text `text`, as
/// `serde_json` parses it; none when the text is not JSON, has no such field, or the
/// field is not a string.
pub uninterp spec fn json_string_field(text: Seq<char>, field: Seq<char>) -> Option<Seq<char>>;

/// Parses `text` with `serde_json::from_str` into a `serde_json::Value` and reads the
/// string at `field` with `Value::get` and `Value::as_str`. The contract only names the
/// result; the JSON grammar is not stated here.
#[verifier::external_body]
fn json_field_str(text: &str, field: &str) -> (r: Option<String>)
    ensures
        opt_view(r) == json_string_field(text@, field@),
{
    let value: serde_json::Value = match serde_json::from_str(text) {
        Ok(v) => v,
        Err(_) => return None,
    };
    match value.get(field) {
        Some(f) => match f.as_str() {
            Some(s) => Some(s.to_string()),
            None => None,
        },
        None => None,
    }
}

/// The profile selected in the text of OpenDeck's selection file for a device: its
/// `selected_profile` string.
pub open spec fn spec_selected_profile(text: Option<String>) -> Option<Seq<char>> {
    match text {
        Some(t) => json_string_field(t@, "selected_profile"@),
        None => None,
    }
}

/// Reads the selected profile out of the text of OpenDeck's selection file for a
/// device (`text`, when the file could be read) and compares it with the profile known
/// for the device: returns the new profile to switch to, or `None` when the file names
/// none or nothing changed.
pub fn selected_profile_change(text: Option<String>, known: Option<String>) -> (r: Option<String>)
    ensures
        opt_view(r) == spec_detect_profile_change(spec_selected_profile(text), opt_view(known)),
{
    let selected = match &text {
        Some(t) => json_field_str(t.as_str(), "selected_profile"),
        None => None,
    };
    detect_profile_change(selected, known)
}

/// Whether the watcher that waits for OpenDeck to write a profile switch checks once
/// more: only while no change has been found and the retry window (`window_ms`) has not
/// passed (`elapsed_ms` since it started).
pub fn profile_watch_goes_on(changed: bool, elapsed_ms: u64, window_ms: u64) -> (r: bool)
    ensures
        r == (!changed && elapsed_ms < window_ms),
{
    !changed && elapsed_ms < window_ms
}

/// After a device switches to a profile, that profile is what is read back for the
/// device and what counts as the current profile, whatever the profile file says.
pub proof fn lemma_set_then_get(t: ProfileTracker, u: ProfileTracker, device: String, profile: String, file_text: Option<Seq<char>>)
    requires
        u.current@ == t.current@.insert(device@, profile),
        u.last == Some(profile),
    ensures
        u.current@.dom().contains(device@),
        u.current@[device@] == profile,
        u.spec_current(file_text) == Some(profile@),
        forall|d: Seq<char>| d != device@ ==> (#[trigger] u.current@.dom().contains(d)) == t.current@.dom().contains(d),
{
}

/// Switching to the profile just detected makes a second detection report nothing.
pub proof fn lemma_detect_after_switch_is_silent(selected: Seq<char>, known: Option<Seq<char>>)
    ensures
        spec_detect_profile_change(Some(selected), known) matches Some(p) ==> spec_detect_profile_change(
            Some(selected),
            Some(p),
        ) is None,
{
}

} // verus!
