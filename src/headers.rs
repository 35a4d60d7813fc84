use vstd::prelude::*;

verus! {

/// A header list as pairs of character sequences.
pub open spec fn pairs_view(p: Seq<(String, String)>) -> Seq<(Seq<char>, Seq<char>)> {
    p.map_values(|h: (String, String)| (h.0@, h.1@))
}

/// The headers folded into a map, a later entry replacing an earlier one of
/// the same name.
pub open spec fn folded(p: Seq<(Seq<char>, Seq<char>)>) -> Map<Seq<char>, Seq<char>>
    decreases p.len(),
{
    if p.len() == 0 {
        Map::empty()
    } else {
        folded(p.drop_last()).insert(p.last().0, p.last().1)
    }
}

/// `r` lists each entry of `m` once, and nothing else.
pub open spec fn lists_map(r: Seq<(Seq<char>, Seq<char>)>, m: Map<Seq<char>, Seq<char>>) -> bool {
    &&& forall|k: int, j: int|
        0 <= k < r.len() && 0 <= j < r.len() && k != j ==> (#[trigger] r[k]).0 != (#[trigger] r[j]).0
    &&& forall|k: int| 0 <= k < r.len() ==> m.contains_key((#[trigger] r[k]).0) && m[r[k].0] == r[k].1
    &&& forall|n: Seq<char>| #[trigger] m.contains_key(n) ==> exists|k: int| 0 <= k < r.len() && r[k].0 == n
}

/// A character allowed in a header name.
pub open spec fn is_token_char(c: char) -> bool {
    let u = c as u32;
    (0x61 <= u <= 0x7a) || (0x41 <= u <= 0x5a) || (0x30 <= u <= 0x39) || c == '!' || c == '#'
        || c == '$' || c == '%' || c == '&' || c == '\'' || c == '*' || c == '+' || c == '-'
        || c == '.' || c == '^' || c == '_' || c == '`' || c == '|' || c == '~'
}

/// A name that can be sent as a header name: non-empty, at most 65535
/// characters, all of them token characters.
pub open spec fn valid_header_name(s: Seq<char>) -> bool {
    &&& 0 < s.len() <= 65535
    &&& forall|i: int| 0 <= i < s.len() ==> #[trigger] is_token_char(s[i])
}

/// A text that can be sent as a header value: no control character but tab.
pub open spec fn valid_header_value(s: Seq<char>) -> bool {
    forall|i: int|
        0 <= i < s.len() ==> ((#[trigger] s[i] as u32) >= 32 && s[i] as u32 != 127) || s[i] == '\t'
}

/// Every entry of `p` can be sent.
pub open spec fn all_transmittable(p: Seq<(Seq<char>, Seq<char>)>) -> bool {
    forall|i: int|
        0 <= i < p.len() ==> valid_header_name((#[trigger] p[i]).0) && valid_header_value(p[i].1)
}

/// Relies on http's `HeaderName::from_bytes`, which accepts exactly the
/// non-empty names of at most 65535 bytes whose bytes are all token characters.
#[verifier::external_body]
fn header_name_accepted(name: &str) -> (r: bool)
    ensures
        r == valid_header_name(name@),
{
    axum::http::HeaderName::from_bytes(name.as_bytes()).is_ok()
}

/// Relies on http's `HeaderValue::from_str`, which refuses a text exactly when
/// one of its bytes is below 32 but for tab, or is 127.
#[verifier::external_body]
fn header_value_accepted(value: &str) -> (r: bool)
    ensures
        r == valid_header_value(value@),
{
    axum::http::HeaderValue::from_str(value).is_ok()
}

/// Whether every header of `pairs` has a name and a value that can be sent.
pub fn headers_transmittable(pairs: &Vec<(String, String)>) -> (r: bool)
    ensures
        r == all_transmittable(pairs_view(pairs@)),
{
    let mut i: usize = 0;
    while i < pairs.len()
        invariant
            0 <= i <= pairs@.len(),
            all_transmittable(pairs_view(pairs@.take(i as int))),
        decreases pairs@.len() - i,
    {
        let name_ok = header_name_accepted(pairs[i].0.as_str());
        let value_ok = header_value_accepted(pairs[i].1.as_str());
        if !(name_ok && value_ok) {
            let ghost pv = pairs_view(pairs@);
            assert(pv[i as int] == (pairs@[i as int].0@, pairs@[i as int].1@));
            assert(pv.len() == pairs@.len());
            assert(!(valid_header_name(pv[i as int].0) && valid_header_value(pv[i as int].1)));
            assert(!all_transmittable(pv)) by {
                if all_transmittable(pv) {
                    assert(valid_header_name(pv[i as int].0) && valid_header_value(pv[i as int].1));
                }
            }
            return false;
        }
        assert(pairs_view(pairs@.take(i + 1)) =~= pairs_view(pairs@.take(i as int)).push(
            (pairs@[i as int].0@, pairs@[i as int].1@),
        ));
        i = i + 1;
    }
    assert(pairs@.take(i as int) =~= pairs@);
    true
}

/// Folds a header list into one entry per name, the last value of each name
/// winning, names in the order of their first appearance.
pub fn fold_headers(pairs: &Vec<(String, String)>) -> (r: Vec<(String, String)>)
    ensures
        lists_map(pairs_view(r@), folded(pairs_view(pairs@))),
{
    let mut r: Vec<(String, String)> = Vec::new();
    let mut i: usize = 0;
    while i < pairs.len()
        invariant
            0 <= i <= pairs@.len(),
            lists_map(pairs_view(r@), folded(pairs_view(pairs@.take(i as int)))),
        decreases pairs@.len() - i,
    {
        let ghost before = pairs_view(r@);
        let ghost m = folded(pairs_view(pairs@.take(i as int)));
        let name = pairs[i].0.clone();
        let value = pairs[i].1.clone();
        assert(pairs_view(pairs@.take(i + 1)).drop_last() =~= pairs_view(pairs@.take(i as int)));
        assert(pairs_view(pairs@.take(i + 1)).last() == (name@, value@));
        let ghost m2 = m.insert(name@, value@);
        assert(folded(pairs_view(pairs@.take(i + 1))) == m2);
        let mut k: usize = 0;
        let mut found = false;
        while !found && k < r.len()
            invariant
                0 <= k <= r@.len(),
                pairs_view(r@) == before,
                found ==> k < r@.len() && before[k as int].0 == name@,
                !found ==> forall|j: int| 0 <= j < k ==> before[j].0 != name@,
            decreases r@.len() - k + (if found { 0int } else { 1int }),
        {
            if r[k].0 == name {
                assert(before[k as int].0 == name@);
                found = true;
            } else {
                k = k + 1;
            }
        }
        if found {
            r.set(k, (name, value));
            let ghost after = pairs_view(r@);
            assert(after =~= before.update(k as int, (name@, value@)));
            assert forall|n: Seq<char>| #[trigger] m2.contains_key(n) implies exists|j: int|
                0 <= j < after.len() && after[j].0 == n by {
                if n != name@ {
                    let j = choose|j: int| 0 <= j < before.len() && before[j].0 == n;
                    assert(after[j].0 == n);
                } else {
                    assert(after[k as int].0 == n);
                }
            }
        } else {
            r.push((name, value));
            let ghost after = pairs_view(r@);
            assert(after =~= before.push((name@, value@)));
            assert forall|n: Seq<char>| #[trigger] m2.contains_key(n) implies exists|j: int|
                0 <= j < after.len() && after[j].0 == n by {
                if n != name@ {
                    let j = choose|j: int| 0 <= j < before.len() && before[j].0 == n;
                    assert(after[j].0 == n);
                } else {
                    assert(after[before.len() as int].0 == n);
                }
            }
        }
        i = i + 1;
    }
    assert(pairs@.take(i as int) =~= pairs@);
    r
}

} // verus!

verus! {

/// Every entry of the map can be sent.
pub open spec fn map_transmittable(m: Map<Seq<char>, Seq<char>>) -> bool {
    forall|n: Seq<char>|
        #[trigger] m.contains_key(n) ==> valid_header_name(n) && valid_header_value(m[n])
}

/// A list of a map's entries can be sent exactly when the map can.
pub proof fn lemma_listed_transmittable(r: Seq<(Seq<char>, Seq<char>)>, m: Map<Seq<char>, Seq<char>>)
    requires
        lists_map(r, m),
    ensures
        all_transmittable(r) == map_transmittable(m),
{
    if all_transmittable(r) {
        assert forall|n: Seq<char>| #[trigger] m.contains_key(n) implies valid_header_name(n)
            && valid_header_value(m[n]) by {
            let k = choose|k: int| 0 <= k < r.len() && r[k].0 == n;
            assert(m.contains_key(r[k].0) && m[r[k].0] == r[k].1);
            assert(valid_header_name(r[k].0) && valid_header_value(r[k].1));
        }
    }
    if map_transmittable(m) {
        assert forall|k: int| 0 <= k < r.len() implies valid_header_name((#[trigger] r[k]).0)
            && valid_header_value(r[k].1) by {
            assert(m.contains_key(r[k].0) && m[r[k].0] == r[k].1);
        }
    }
}

} // verus!
