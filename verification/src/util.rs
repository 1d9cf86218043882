//! Small verified set operations on vectors, used for the engine's
//! duplicate-free collections, and the spec views of identifier sequences.

use vstd::prelude::*;

use crate::hotkey::HotKey;
use crate::key::KeyCode;

verus! {

/// No element occurs twice.
pub open spec fn no_dup<A>(s: Seq<A>) -> bool {
    forall|i: int, j: int| 0 <= i < j < s.len() ==> s[i] != s[j]
}

/// The views of a sequence of strings.
pub open spec fn str_seq(s: Seq<String>) -> Seq<Seq<char>> {
    s.map_values(|x: String| x@)
}

/// No two strings of the sequence read the same.
pub open spec fn no_dup_str(s: Seq<String>) -> bool {
    no_dup(str_seq(s))
}

/// The Unicode lowercase mapping of a character sequence, as
/// `str::to_lowercase` computes it.
pub uninterp spec fn lower_of(s: Seq<char>) -> Seq<char>;

/// Relies on `str::to_lowercase`: the result depends on the characters
/// alone.
#[verifier::external_body]
pub fn to_lowercase(s: &str) -> (r: String)
    ensures
        r@ == lower_of(s@),
{
    s.to_lowercase()
}

/// Relies on `<str as PartialEq>::eq`: true exactly when the two strings
/// hold the same characters.
#[verifier::external_body]
pub fn str_eq(a: &str, b: &str) -> (r: bool)
    ensures
        r == (a@ == b@),
{
    a == b
}

/// Whether `c` occurs in `v`.
pub fn contains_code(v: &Vec<KeyCode>, c: KeyCode) -> (r: bool)
    ensures
        r == v@.contains(c),
{
    let mut i: usize = 0;
    while i < v.len()
        invariant
            0 <= i <= v@.len(),
            forall|j: int| 0 <= j < i ==> v@[j] != c,
        decreases v@.len() - i,
    {
        if v[i] == c {
            return true;
        }
        i = i + 1;
    }
    false
}

/// Whether `h` occurs in `v`.
pub fn contains_hotkey(v: &Vec<HotKey>, h: HotKey) -> (r: bool)
    ensures
        r == v@.contains(h),
{
    let mut i: usize = 0;
    while i < v.len()
        invariant
            0 <= i <= v@.len(),
            forall|j: int| 0 <= j < i ==> v@[j] != h,
        decreases v@.len() - i,
    {
        if v[i] == h {
            return true;
        }
        i = i + 1;
    }
    false
}

/// Whether some string of `v` reads as `s`.
pub fn contains_string(v: &Vec<String>, s: &String) -> (r: bool)
    ensures
        r == str_seq(v@).contains(s@),
{
    let mut i: usize = 0;
    while i < v.len()
        invariant
            0 <= i <= v@.len(),
            forall|j: int| 0 <= j < i ==> str_seq(v@)[j] != s@,
        decreases v@.len() - i,
    {
        assert(str_seq(v@)[i as int] == v@[i as int]@);
        if str_eq(v[i].as_str(), s.as_str()) {
            assert(str_seq(v@).contains(s@));
            return true;
        }
        i = i + 1;
    }
    false
}

/// Adds `c` unless present, keeping the vector duplicate-free.
pub fn set_insert_code(v: &mut Vec<KeyCode>, c: KeyCode)
    ensures
        final(v)@ == (if old(v)@.contains(c) {
            old(v)@
        } else {
            old(v)@.push(c)
        }),
        no_dup(old(v)@) ==> no_dup(final(v)@),
{
    if !contains_code(v, c) {
        v.push(c);
    }
}

/// Removes the occurrence of `c`, if any, from a duplicate-free vector.
pub fn set_remove_code(v: &mut Vec<KeyCode>, c: KeyCode)
    requires
        no_dup(old(v)@),
    ensures
        no_dup(final(v)@),
        final(v)@.to_set() == old(v)@.to_set().remove(c),
        !old(v)@.contains(c) ==> final(v)@ == old(v)@,
{
    let ghost pre = v@;
    let mut i: usize = 0;
    while i < v.len()
        invariant
            0 <= i <= v@.len(),
            v@ == pre,
            pre == old(v)@,
            no_dup(pre),
            forall|j: int| 0 <= j < i ==> pre[j] != c,
        decreases v@.len() - i,
    {
        if v[i] == c {
            assert(pre.contains(c)) by {
                assert(pre[i as int] == c);
            }
            v.remove(i);
            assert(v@ == pre.remove(i as int));
            assert(no_dup(v@)) by {
                assert forall|a: int, b: int| 0 <= a < b < v@.len() implies v@[a] != v@[b] by {
                    if b < i {
                        assert(pre[a] != pre[b]);
                    } else if a < i {
                        assert(pre[a] != pre[b + 1]);
                    } else {
                        assert(pre[a + 1] != pre[b + 1]);
                    }
                }
            }
            assert(v@.to_set() =~= pre.to_set().remove(c)) by {
                assert forall|x: KeyCode| v@.contains(x) implies #[trigger] pre.to_set().remove(
                    c,
                ).contains(x) by {
                    let k = choose|k: int| 0 <= k < v@.len() && v@[k] == x;
                    if k < i {
                        assert(pre[k] == x);
                    } else {
                        assert(pre[k + 1] == x);
                    }
                }
                assert forall|x: KeyCode|
                    pre.to_set().remove(c).contains(x) implies #[trigger] v@.contains(x) by {
                    let k = choose|k: int| 0 <= k < pre.len() && pre[k] == x;
                    if k < i {
                        assert(v@[k] == x);
                    } else {
                        assert(pre[k] != c);
                        assert(v@[k - 1] == x);
                    }
                }
            }
            return ;
        }
        i = i + 1;
    }
    assert(!pre.contains(c));
    assert(v@.to_set() =~= pre.to_set().remove(c));
}

/// Adds `h` unless present; reports whether it was added.
pub fn set_insert_hotkey(v: &mut Vec<HotKey>, h: HotKey) -> (added: bool)
    ensures
        added == !old(v)@.contains(h),
        final(v)@ == (if added {
            old(v)@.push(h)
        } else {
            old(v)@
        }),
        no_dup(old(v)@) ==> no_dup(final(v)@),
{
    if contains_hotkey(v, h) {
        false
    } else {
        v.push(h);
        true
    }
}

/// Removes the occurrence of `h`, if any, from a duplicate-free vector;
/// reports whether one was removed.
pub fn set_remove_hotkey(v: &mut Vec<HotKey>, h: HotKey) -> (removed: bool)
    requires
        no_dup(old(v)@),
    ensures
        removed == old(v)@.contains(h),
        no_dup(final(v)@),
        final(v)@.to_set() == old(v)@.to_set().remove(h),
        !removed ==> final(v)@ == old(v)@,
{
    let ghost pre = v@;
    let mut i: usize = 0;
    while i < v.len()
        invariant
            0 <= i <= v@.len(),
            v@ == pre,
            pre == old(v)@,
            no_dup(pre),
            forall|j: int| 0 <= j < i ==> pre[j] != h,
        decreases v@.len() - i,
    {
        if v[i] == h {
            assert(pre.contains(h)) by {
                assert(pre[i as int] == h);
            }
            v.remove(i);
            assert(v@ == pre.remove(i as int));
            assert(no_dup(v@)) by {
                assert forall|a: int, b: int| 0 <= a < b < v@.len() implies v@[a] != v@[b] by {
                    if b < i {
                        assert(pre[a] != pre[b]);
                    } else if a < i {
                        assert(pre[a] != pre[b + 1]);
                    } else {
                        assert(pre[a + 1] != pre[b + 1]);
                    }
                }
            }
            assert(v@.to_set() =~= pre.to_set().remove(h)) by {
                assert forall|x: HotKey| v@.contains(x) implies #[trigger] pre.to_set().remove(
                    h,
                ).contains(x) by {
                    let k = choose|k: int| 0 <= k < v@.len() && v@[k] == x;
                    if k < i {
                        assert(pre[k] == x);
                    } else {
                        assert(pre[k + 1] == x);
                    }
                }
                assert forall|x: HotKey|
                    pre.to_set().remove(h).contains(x) implies #[trigger] v@.contains(x) by {
                    let k = choose|k: int| 0 <= k < pre.len() && pre[k] == x;
                    if k < i {
                        assert(v@[k] == x);
                    } else {
                        assert(pre[k] != h);
                        assert(v@[k - 1] == x);
                    }
                }
            }
            return true;
        }
        i = i + 1;
    }
    assert(!pre.contains(h));
    assert(v@.to_set() =~= pre.to_set().remove(h));
    false
}

/// Adds `s` unless an equal-reading string is present.
pub fn set_insert_string(v: &mut Vec<String>, s: String)
    ensures
        str_seq(final(v)@) == (if str_seq(old(v)@).contains(s@) {
            str_seq(old(v)@)
        } else {
            str_seq(old(v)@).push(s@)
        }),
        no_dup_str(old(v)@) ==> no_dup_str(final(v)@),
{
    let ghost pres = str_seq(v@);
    let ghost sv = s@;
    if !contains_string(v, &s) {
        v.push(s);
        assert(str_seq(v@) =~= pres.push(sv)) by {
            assert(forall|j: int| 0 <= j < pres.len() ==> str_seq(v@)[j] == pres[j]);
            assert(str_seq(v@)[pres.len() as int] == sv);
        }
    } else {
        assert(str_seq(v@) =~= pres);
    }
}

/// Removes the string reading as `s`, if any, from a vector with
/// pairwise-distinct readings.
pub fn set_remove_string(v: &mut Vec<String>, s: &String)
    requires
        no_dup_str(old(v)@),
    ensures
        no_dup_str(final(v)@),
        str_seq(final(v)@).to_set() == str_seq(old(v)@).to_set().remove(s@),
        !str_seq(old(v)@).contains(s@) ==> final(v)@ == old(v)@,
{
    let ghost pre = v@;
    let ghost pres = str_seq(v@);
    let mut i: usize = 0;
    while i < v.len()
        invariant
            0 <= i <= v@.len(),
            v@ == pre,
            pre == old(v)@,
            pres == str_seq(pre),
            no_dup(pres),
            forall|j: int| 0 <= j < i ==> pres[j] != s@,
        decreases v@.len() - i,
    {
        assert(pres[i as int] == v@[i as int]@);
        if str_eq(v[i].as_str(), s.as_str()) {
            assert(pres.contains(s@)) by {
                assert(pres[i as int] == s@);
            }
            v.remove(i);
            assert(str_seq(v@) =~= pres.remove(i as int)) by {
                assert(forall|j: int|
                    0 <= j < str_seq(v@).len() ==> str_seq(v@)[j] == #[trigger] pres.remove(
                        i as int,
                    )[j]);
            }
            let ghost post = str_seq(v@);
            assert(no_dup(post)) by {
                assert forall|a: int, b: int| 0 <= a < b < post.len() implies post[a] != post[b] by {
                    if b < i {
                        assert(pres[a] != pres[b]);
                    } else if a < i {
                        assert(pres[a] != pres[b + 1]);
                    } else {
                        assert(pres[a + 1] != pres[b + 1]);
                    }
                }
            }
            assert(post.to_set() =~= pres.to_set().remove(s@)) by {
                assert forall|x: Seq<char>| post.contains(x) implies #[trigger] pres.to_set().remove(
                    s@,
                ).contains(x) by {
                    let k = choose|k: int| 0 <= k < post.len() && post[k] == x;
                    if k < i {
                        assert(pres[k] == x);
                    } else {
                        assert(pres[k + 1] == x);
                    }
                }
                assert forall|x: Seq<char>|
                    pres.to_set().remove(s@).contains(x) implies #[trigger] post.contains(x) by {
                    let k = choose|k: int| 0 <= k < pres.len() && pres[k] == x;
                    if k < i {
                        assert(post[k] == x);
                    } else {
                        assert(pres[k] != s@);
                        assert(post[k - 1] == x);
                    }
                }
            }
            return ;
        }
        i = i + 1;
    }
    assert(!pres.contains(s@));
    assert(str_seq(v@).to_set() =~= pres.to_set().remove(s@));
}


/// The key views of an association list keyed by strings.
pub open spec fn assoc_keys<V>(s: Seq<(String, V)>) -> Seq<Seq<char>> {
    s.map_values(|p: (String, V)| p.0@)
}

/// The map an association list denotes; an earlier entry shadows a later
/// one with the same key.
pub open spec fn assoc_map<V>(s: Seq<(String, V)>) -> Map<Seq<char>, V>
    decreases s.len(),
{
    if s.len() == 0 {
        Map::empty()
    } else {
        assoc_map(s.drop_first()).insert(s[0].0@, s[0].1)
    }
}

/// Looking a key up in the map an association list denotes.
pub open spec fn assoc_lookup<V>(s: Seq<(String, V)>, k: Seq<char>) -> Option<V> {
    if assoc_map(s).contains_key(k) {
        Some(assoc_map(s)[k])
    } else {
        None
    }
}

/// The first entry of an association list with the given key, if any.
pub fn assoc_get<'a, V>(v: &'a Vec<(String, V)>, k: &str) -> (r: Option<&'a V>)
    ensures
        match r {
            Some(x) => assoc_lookup(v@, k@) == Some(*x),
            None => assoc_lookup(v@, k@) is None,
        },
{
    let ghost full = v@;
    assert(full.subrange(0, full.len() as int) =~= full);
    let mut i: usize = 0;
    while i < v.len()
        invariant
            0 <= i <= full.len(),
            v@ == full,
            assoc_lookup(full, k@) == assoc_lookup(full.subrange(i as int, full.len() as int), k@),
        decreases full.len() - i,
    {
        let ghost rest = full.subrange(i as int, full.len() as int);
        assert(rest.drop_first() == full.subrange(i + 1, full.len() as int));
        if str_eq(v[i].0.as_str(), k) {
            assert(assoc_map(rest)[k@] == full[i as int].1);
            return Some(&v[i].1);
        }
        i = i + 1;
    }
    assert(assoc_lookup(full, k@) == assoc_lookup(full.subrange(
        full.len() as int,
        full.len() as int,
    ), k@));
    None
}

/// Whether no two entries of an association list share a key.
pub fn string_keys_unique<V>(v: &Vec<(String, V)>) -> (r: bool)
    ensures
        r == no_dup(assoc_keys(v@)),
{
    let mut i: usize = 0;
    while i < v.len()
        invariant
            0 <= i <= v@.len(),
            forall|a: int, b: int| 0 <= a < b < i ==> assoc_keys(v@)[a] != assoc_keys(v@)[b],
        decreases v@.len() - i,
    {
        let mut j: usize = 0;
        while j < i
            invariant
                0 <= j <= i < v@.len(),
                forall|a: int, b: int| 0 <= a < b < i ==> assoc_keys(v@)[a] != assoc_keys(v@)[b],
                forall|a: int| 0 <= a < j ==> assoc_keys(v@)[a] != assoc_keys(v@)[i as int],
            decreases i - j,
        {
            assert(assoc_keys(v@)[j as int] == v@[j as int].0@);
            assert(assoc_keys(v@)[i as int] == v@[i as int].0@);
            if str_eq(v[j].0.as_str(), v[i].0.as_str()) {
                return false;
            }
            j = j + 1;
        }
        i = i + 1;
    }
    true
}


/// A copy of a string vector, equal-reading element by element.
pub fn clone_string_vec(v: &Vec<String>) -> (r: Vec<String>)
    ensures
        str_seq(r@) == str_seq(v@),
{
    let mut out: Vec<String> = Vec::new();
    let mut i: usize = 0;
    while i < v.len()
        invariant
            0 <= i <= v@.len(),
            out@.len() == i,
            forall|j: int| 0 <= j < i ==> out@[j]@ == v@[j]@,
        decreases v@.len() - i,
    {
        out.push(v[i].clone());
        i = i + 1;
    }
    assert(str_seq(out@) =~= str_seq(v@));
    out
}

/// A copy of an optional string, equal-reading when present.
pub fn clone_string_opt(v: &Option<String>) -> (r: Option<String>)
    ensures
        match v {
            Some(s) => r matches Some(t) && t@ == s@,
            None => r is None,
        },
{
    match v {
        Some(s) => Some(s.clone()),
        None => None,
    }
}


/// Removing the only occurrence of an element from a duplicate-free
/// sequence keeps it duplicate-free and drops that element.
pub proof fn lemma_remove_unique<A>(s: Seq<A>, i: int)
    requires
        0 <= i < s.len(),
        no_dup(s),
    ensures
        no_dup(s.remove(i)),
        !s.remove(i).contains(s[i]),
{
    assert forall|a: int, b: int| 0 <= a < b < s.remove(i).len() implies s.remove(i)[a] != s.remove(
        i,
    )[b] by {
        if b < i {
            assert(s[a] != s[b]);
        } else if a < i {
            assert(s[a] != s[b + 1]);
        } else {
            assert(s[a + 1] != s[b + 1]);
        }
    }
    if s.remove(i).contains(s[i]) {
        let k = choose|k: int| 0 <= k < s.remove(i).len() && s.remove(i)[k] == s[i];
        if k < i {
            assert(s[k] == s[i]);
        } else {
            assert(s[k + 1] == s[i]);
        }
    }
}

} // verus!
