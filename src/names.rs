//! Normalising the name lists that callers hand in: device names, event tags.
use vstd::prelude::*;
use vstd::string::*;

verus! {

/// What `str::to_lowercase` returns for the given characters.
pub uninterp spec fn lower_of(s: Seq<char>) -> Seq<char>;

/// What `str::trim` leaves of the given characters.
pub uninterp spec fn trim_of(s: Seq<char>) -> Seq<char>;

/// Relies on `str::to_lowercase`: the result depends on the characters alone.
#[verifier::external_body]
pub(crate) fn lowercase(s: &str) -> (r: String)
    ensures
        r@ == lower_of(s@),
{
    s.to_lowercase()
}

/// `part` is a contiguous piece of `whole`.
pub open spec fn is_piece_of(part: Seq<char>, whole: Seq<char>) -> bool {
    exists|i: int, j: int| 0 <= i <= j <= whole.len() && part == whole.subrange(i, j)
}

/// Relies on `str::trim`: the result depends on the characters alone, and is
/// the part of `s` left after leading and trailing whitespace is removed.
#[verifier::external_body]
pub(crate) fn trimmed<'a>(s: &'a str) -> (r: &'a str)
    ensures
        r@ == trim_of(s@),
        is_piece_of(r@, s@),
{
    s.trim()
}

/// The characters of each string.
pub open spec fn views(v: Seq<String>) -> Seq<Seq<char>> {
    v.map_values(|x: String| x@)
}

/// A name as it is compared: lower-cased, then trimmed.
pub open spec fn sanitized(s: Seq<char>) -> Seq<char> {
    trim_of(lower_of(s))
}

/// The pieces of `s` between commas, empty pieces included, as `str::split(',')`
/// gives them.
pub open spec fn comma_parts(s: Seq<char>) -> Seq<Seq<char>>
    decreases s.len(),
{
    if s.len() == 0 {
        seq![Seq::<char>::empty()]
    } else {
        let p = comma_parts(s.drop_last());
        if s.last() == ',' {
            p.push(Seq::<char>::empty())
        } else {
            p.update(p.len() - 1, p.last().push(s.last()))
        }
    }
}

/// The non-empty pieces, each trimmed and then lower-cased.
pub open spec fn listed_names(parts: Seq<Seq<char>>) -> Seq<Seq<char>>
    decreases parts.len(),
{
    if parts.len() == 0 {
        Seq::empty()
    } else {
        let r = listed_names(parts.drop_last());
        if parts.last().len() > 0 {
            r.push(lower_of(trim_of(parts.last())))
        } else {
            r
        }
    }
}

/// Each name lower-cased and trimmed, in order.
pub fn sanitize_name_list(list: &[String]) -> (r: Vec<String>)
    ensures
        r@.len() == list@.len(),
        forall|i: int| 0 <= i < list@.len() ==> #[trigger] r@[i]@ == sanitized(list@[i]@),
{
    let mut r: Vec<String> = Vec::new();
    let mut i: usize = 0;
    while i < list.len()
        invariant
            i <= list@.len(),
            r@.len() == i,
            forall|j: int| 0 <= j < i ==> #[trigger] r@[j]@ == sanitized(list@[j]@),
        decreases list@.len() - i,
    {
        let lower = lowercase(list[i].as_str());
        let t = trimmed(lower.as_str());
        r.push(t.to_owned());
        i = i + 1;
    }
    r
}

/// Appends a piece to the list of names if it is not empty.
fn push_listed(r: &mut Vec<String>, part: &str)
    ensures
        views(final(r)@) == if part@.len() > 0 {
            views(old(r)@).push(lower_of(trim_of(part@)))
        } else {
            views(old(r)@)
        },
{
    if !part.is_empty() {
        let t = trimmed(part);
        let l = lowercase(t);
        r.push(l);
        assert(views(final(r)@) =~= views(old(r)@).push(lower_of(trim_of(part@))));
    }
}

/// The comma-separated names of `input`: empty pieces dropped, the others
/// trimmed and lower-cased.
pub fn parse_list_string(input: &str) -> (r: Vec<String>)
    ensures
        views(r@) == listed_names(comma_parts(input@)),
{
    let n = input.unicode_len();
    let mut r: Vec<String> = Vec::new();
    let ghost mut done: Seq<Seq<char>> = Seq::empty();
    let mut start: usize = 0;
    let mut i: usize = 0;
    assert(input@.subrange(0, 0) =~= Seq::<char>::empty());
    assert(done.push(input@.subrange(0, 0)) =~= seq![Seq::<char>::empty()]);
    while i < n
        invariant
            n == input@.len(),
            start <= i <= n,
            comma_parts(input@.subrange(0, i as int)) == done.push(
                input@.subrange(start as int, i as int),
            ),
            views(r@) == listed_names(done),
        decreases n - i,
    {
        let c = input.get_char(i);
        let ghost pre = input@.subrange(0, i as int);
        let ghost cur = input@.subrange(0, i as int + 1);
        assert(cur.drop_last() =~= pre);
        if c == ',' {
            let part = input.substring_char(start, i);
            push_listed(&mut r, part);
            proof {
                let d2 = done.push(input@.subrange(start as int, i as int));
                assert(d2.drop_last() =~= done);
                assert(input@.subrange(i as int + 1, i as int + 1) =~= Seq::<char>::empty());
                done = d2;
            }
            start = i + 1;
        } else {
            proof {
                let p = done.push(input@.subrange(start as int, i as int));
                assert(cur.last() == c);
                assert(input@.subrange(start as int, i as int + 1) =~= input@.subrange(
                    start as int,
                    i as int,
                ).push(c));
                assert(p.update(p.len() - 1, p.last().push(c)) =~= done.push(
                    input@.subrange(start as int, i as int + 1),
                ));
            }
        }
        i = i + 1;
    }
    assert(input@.subrange(0, n as int) =~= input@);
    let part = input.substring_char(start, n);
    push_listed(&mut r, part);
    proof {
        let d2 = done.push(input@.subrange(start as int, n as int));
        assert(d2.drop_last() =~= done);
    }
    r
}

/// Whether the two texts hold the same characters.
pub fn same_text(a: &str, b: &str) -> (r: bool)
    ensures
        r == (a@ == b@),
{
    let n = a.unicode_len();
    if n != b.unicode_len() {
        return false;
    }
    let mut i: usize = 0;
    while i < n
        invariant
            n == a@.len(),
            n == b@.len(),
            i <= n,
            forall|j: int| 0 <= j < i ==> a@[j] == b@[j],
        decreases n - i,
    {
        if a.get_char(i) != b.get_char(i) {
            return false;
        }
        i = i + 1;
    }
    assert(a@ =~= b@);
    true
}

/// The non-empty strings, in order.
pub open spec fn non_empty(list: Seq<String>) -> Seq<String>
    decreases list.len(),
{
    if list.len() == 0 {
        Seq::empty()
    } else {
        let r = non_empty(list.drop_last());
        if list.last()@.len() > 0 {
            r.push(list.last())
        } else {
            r
        }
    }
}

/// The non-empty strings of a list handed over by a caller that cannot size
/// its arrays, in order.
pub fn read_input_string(list: &[String]) -> (r: Vec<String>)
    ensures
        r@ == non_empty(list@),
{
    let mut r: Vec<String> = Vec::new();
    let mut i: usize = 0;
    while i < list.len()
        invariant
            i <= list@.len(),
            r@ == non_empty(list@.subrange(0, i as int)),
        decreases list@.len() - i,
    {
        assert(list@.subrange(0, i as int + 1).drop_last() =~= list@.subrange(0, i as int));
        if !list[i].as_str().is_empty() {
            r.push(list[i].clone());
        }
        i = i + 1;
    }
    assert(list@.subrange(0, i as int) =~= list@);
    r
}

} // verus!
