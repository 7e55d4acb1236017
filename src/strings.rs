//! Splitting a delimiter-joined list into its non-empty items, and joining
//! items back with a delimiter.

use vstd::prelude::*;
use vstd::string::*;

verus! {

/// `seg` as a one-item list, or no item at all when it is empty.
pub open spec fn emit(seg: Seq<char>) -> Seq<Seq<char>> {
    if seg.len() == 0 {
        Seq::empty()
    } else {
        seq![seg]
    }
}

/// The non-empty items of `s`, given that the item being read so far is `cur`.
/// A delimiter is matched leftmost first and matches never overlap; an empty
/// delimiter separates every character.
pub open spec fn items_from(s: Seq<char>, d: Seq<char>, cur: Seq<char>) -> Seq<Seq<char>>
    decreases s.len(),
{
    if s.len() == 0 {
        emit(cur)
    } else if d.len() == 0 {
        emit(cur) + seq![seq![s[0]]] + items_from(s.drop_first(), d, Seq::empty())
    } else if d.len() <= s.len() && s.subrange(0, d.len() as int) == d {
        emit(cur) + items_from(s.subrange(d.len() as int, s.len() as int), d, Seq::empty())
    } else {
        items_from(s.drop_first(), d, cur.push(s[0]))
    }
}

/// The items of the list `s` delimited by `d`, with empty segments dropped.
pub open spec fn split_spec(s: Seq<char>, d: Seq<char>) -> Seq<Seq<char>> {
    items_from(s, d, Seq::empty())
}

/// `items` with `d` placed strictly between adjacent items.
pub open spec fn join_spec(items: Seq<Seq<char>>, d: Seq<char>) -> Seq<char>
    decreases items.len(),
{
    if items.len() == 0 {
        Seq::empty()
    } else if items.len() == 1 {
        items[0]
    } else {
        join_spec(items.drop_last(), d) + d + items.last()
    }
}

/// The character sequences of a list of strings.
pub open spec fn views_of(v: Seq<String>) -> Seq<Seq<char>> {
    v.map_values(|x: String| x@)
}

/// Whether `d` occurs in `s` starting at position `i`.
pub open spec fn occurs_at(s: Seq<char>, d: Seq<char>, i: int) -> bool {
    0 <= i && i + d.len() <= s.len() && s.subrange(i, i + d.len()) == d
}

fn occurs_at_exec(s: &str, d: &str, i: usize, slen: usize, dlen: usize) -> (r: bool)
    requires
        slen == s@.len(),
        dlen == d@.len(),
        i <= slen,
    ensures
        r == occurs_at(s@, d@, i as int),
{
    if dlen > slen - i {
        return false;
    }
    let mut k: usize = 0;
    while k < dlen
        invariant
            k <= dlen,
            i + dlen <= slen,
            slen == s@.len(),
            dlen == d@.len(),
            forall|j: int| 0 <= j < k ==> s@[i + j] == d@[j],
        decreases dlen - k,
    {
        if s.get_char(i + k) != d.get_char(k) {
            assert(s@.subrange(i as int, i + dlen)[k as int] != d@[k as int]);
            return false;
        }
        k = k + 1;
    }
    assert(s@.subrange(i as int, i + dlen) =~= d@);
    true
}

/// Splits `s` at each occurrence of `delimiter` and keeps the non-empty
/// segments, in order.
pub fn split_items(s: &str, delimiter: &str) -> (r: Vec<String>)
    ensures
        views_of(r@) == split_spec(s@, delimiter@),
{
    let slen = s.unicode_len();
    let dlen = delimiter.unicode_len();
    let mut out: Vec<String> = Vec::new();
    let mut start: usize = 0;
    let mut i: usize = 0;
    assert(s@.subrange(0, slen as int) =~= s@);
    assert(s@.subrange(0, 0) =~= Seq::<char>::empty());
    assert(views_of(out@) + split_spec(s@, delimiter@) =~= split_spec(s@, delimiter@));
    while i < slen
        invariant
            start <= i <= slen,
            slen == s@.len(),
            dlen == delimiter@.len(),
            dlen == 0 ==> start == i,
            views_of(out@) + items_from(s@.subrange(i as int, slen as int), delimiter@,
                s@.subrange(start as int, i as int)) == split_spec(s@, delimiter@),
        decreases slen - i,
    {
        let ghost rest = s@.subrange(i as int, slen as int);
        let ghost cur = s@.subrange(start as int, i as int);
        if dlen == 0 {
            let piece = s.substring_char(i, i + 1).to_owned();
            assert(rest.drop_first() =~= s@.subrange(i + 1, slen as int));
            assert(piece@ =~= seq![rest[0]]);
            assert(cur =~= Seq::<char>::empty());
            assert(s@.subrange(i + 1, i + 1) =~= Seq::<char>::empty());
            assert(views_of(out@.push(piece)) =~= views_of(out@) + emit(cur) + seq![seq![rest[0]]]);
            out.push(piece);
            i = i + 1;
            start = i;
        } else if occurs_at_exec(s, delimiter, i, slen, dlen) {
            assert(rest.subrange(0, dlen as int) =~= s@.subrange(i as int, i + dlen));
            assert(rest.subrange(dlen as int, rest.len() as int) =~= s@.subrange(i + dlen, slen as int));
            if start < i {
                let piece = s.substring_char(start, i).to_owned();
                assert(views_of(out@.push(piece)) =~= views_of(out@) + emit(cur));
                out.push(piece);
            } else {
                assert(emit(cur) =~= Seq::<Seq<char>>::empty());
                assert(views_of(out@) + emit(cur) =~= views_of(out@));
            }
            i = i + dlen;
            start = i;
            assert(s@.subrange(i as int, i as int) =~= Seq::<char>::empty());
        } else {
            assert(rest.drop_first() =~= s@.subrange(i + 1, slen as int));
            assert(cur.push(rest[0]) =~= s@.subrange(start as int, i + 1));
            proof {
                if dlen <= rest.len() {
                    assert(rest.subrange(0, dlen as int) =~= s@.subrange(i as int, i + dlen));
                }
            }
            i = i + 1;
        }
    }
    assert(s@.subrange(slen as int, slen as int) =~= Seq::<char>::empty());
    if start < slen {
        let piece = s.substring_char(start, slen).to_owned();
        assert(views_of(out@.push(piece)) =~= views_of(out@) + emit(s@.subrange(start as int, slen as int)));
        out.push(piece);
    } else {
        assert(views_of(out@) + emit(s@.subrange(start as int, slen as int)) =~= views_of(out@));
    }
    out
}

/// Joins `items`, placing `delimiter` strictly between adjacent items.
pub fn join_items(items: &Vec<String>, delimiter: &str) -> (r: String)
    ensures
        r@ == join_spec(views_of(items@), delimiter@),
{
    let mut out = String::new();
    let mut i: usize = 0;
    while i < items.len()
        invariant
            i <= items@.len(),
            out@ == join_spec(views_of(items@.subrange(0, i as int)), delimiter@),
        decreases items@.len() - i,
    {
        let ghost prev = views_of(items@.subrange(0, i as int));
        let ghost next = views_of(items@.subrange(0, i + 1));
        assert(next.drop_last() =~= prev);
        if i > 0 {
            out.append(delimiter);
        }
        out.append(items[i].as_str());
        if i == 0 {
            assert(out@ =~= next[0]);
        } else {
            assert(out@ =~= join_spec(prev, delimiter@) + delimiter@ + next.last());
        }
        i = i + 1;
    }
    assert(items@.subrange(0, items@.len() as int) =~= items@);
    out
}

} // verus!
