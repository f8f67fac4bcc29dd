//! Header lists: the headers of a request or a response as plain values.
//!
//! A header is a name and a value of bytes. Names are compared without
//! regard to ASCII case. The caller reads a list out of the request it
//! was sent and writes one into the response it sends; in between the
//! gateway works on the list as it stands here. Which names and values
//! are well formed is for the crate `http` to say: see `foreign`.

use vstd::prelude::*;
use vstd::slice::slice_to_vec;
use crate::text::{lowered, str_eq, to_lower};

verus! {

/// One header.
#[derive(Debug, Clone, PartialEq, Eq)]
pub struct Header {
    pub name: String,
    pub value: Vec<u8>,
}

/// A header as plain values: its name and its value.
pub type HeaderView = (Seq<char>, Seq<u8>);

impl View for Header {
    type V = HeaderView;

    open spec fn view(&self) -> HeaderView {
        (self.name@, self.value@)
    }
}

/// The headers `hs` as plain values.
pub open spec fn header_views(hs: Seq<Header>) -> Seq<HeaderView> {
    hs.map_values(|h: Header| h@)
}

/// Whether `a` and `b` name the same header.
pub open spec fn same_name(a: Seq<char>, b: Seq<char>) -> bool {
    lowered(a) == lowered(b)
}

/// Whether `a` and `b` name the same header.
pub fn names_match(a: &str, b: &str) -> (r: bool)
    ensures
        r == same_name(a@, b@),
{
    let x = to_lower(a);
    let y = to_lower(b);
    str_eq(x.as_str(), y.as_str())
}

/// The headers `hs` without those named `name`.
pub open spec fn without(hs: Seq<HeaderView>, name: Seq<char>) -> Seq<HeaderView>
    decreases hs.len(),
{
    if hs.len() == 0 {
        hs
    } else if same_name(hs.last().0, name) {
        without(hs.drop_last(), name)
    } else {
        without(hs.drop_last(), name).push(hs.last())
    }
}

/// The headers `hs` with `name` set to `value`: what was under that name
/// is gone, and the new header stands last, under the lower-case name.
pub open spec fn with_header(hs: Seq<HeaderView>, name: Seq<char>, value: Seq<u8>) -> Seq<
    HeaderView,
> {
    without(hs, name).push((lowered(name), value))
}

/// The value of the first header named `name`, if there is one.
pub open spec fn value_of(hs: Seq<HeaderView>, name: Seq<char>) -> Option<Seq<u8>>
    decreases hs.len(),
{
    if hs.len() == 0 {
        None
    } else if same_name(hs[0].0, name) {
        Some(hs[0].1)
    } else {
        value_of(hs.drop_first(), name)
    }
}

/// A copy of the header.
pub fn clone_header(h: &Header) -> (r: Header)
    ensures
        r@ == h@,
{
    Header { name: h.name.clone(), value: slice_to_vec(h.value.as_slice()) }
}

/// A copy of the headers.
pub fn clone_headers(hs: &Vec<Header>) -> (r: Vec<Header>)
    ensures
        header_views(r@) == header_views(hs@),
{
    let mut r: Vec<Header> = Vec::new();
    let mut i: usize = 0;
    while i < hs.len()
        invariant
            i <= hs.len(),
            r@.len() == i,
            forall|j: int| 0 <= j < i ==> (#[trigger] r@[j])@ == hs@[j]@,
        decreases hs.len() - i,
    {
        r.push(clone_header(&hs[i]));
        i += 1;
    }
    assert(header_views(r@) =~= header_views(hs@));
    r
}

/// The headers without those named `name`.
pub fn remove_header(hs: &Vec<Header>, name: &str) -> (r: Vec<Header>)
    ensures
        header_views(r@) == without(header_views(hs@), name@),
{
    let mut r: Vec<Header> = Vec::new();
    let mut i: usize = 0;
    while i < hs.len()
        invariant
            i <= hs.len(),
            header_views(r@) == without(header_views(hs@).take(i as int), name@),
        decreases hs.len() - i,
    {
        let ghost before = header_views(r@);
        let ghost upto = header_views(hs@).take(i + 1);
        assert(upto.drop_last() =~= header_views(hs@).take(i as int));
        assert(upto.last() == hs@[i as int]@);
        if !names_match(hs[i].name.as_str(), name) {
            r.push(clone_header(&hs[i]));
            assert(header_views(r@) =~= before.push(hs@[i as int]@));
        }
        i += 1;
    }
    assert(header_views(hs@).take(hs@.len() as int) =~= header_views(hs@));
    r
}

/// The headers with `name` set to `value`, in place of what was under
/// that name.
pub fn set_header(hs: &Vec<Header>, name: &str, value: Vec<u8>) -> (r: Vec<Header>)
    ensures
        header_views(r@) == with_header(header_views(hs@), name@, value@),
{
    let mut r = remove_header(hs, name);
    let ghost before = header_views(r@);
    let h = Header { name: to_lower(name), value };
    r.push(h);
    assert(header_views(r@) =~= before.push(h@));
    r
}

/// The value of the first header named `name`, if there is one.
pub fn header_value<'a>(hs: &'a Vec<Header>, name: &str) -> (r: Option<&'a Vec<u8>>)
    ensures
        match r {
            Some(v) => value_of(header_views(hs@), name@) == Some(v@),
            None => value_of(header_views(hs@), name@) is None,
        },
{
    let mut i: usize = 0;
    assert(header_views(hs@).skip(0) =~= header_views(hs@));
    while i < hs.len()
        invariant
            i <= hs.len(),
            value_of(header_views(hs@), name@) == value_of(
                header_views(hs@).skip(i as int),
                name@,
            ),
        decreases hs.len() - i,
    {
        let ghost rest = header_views(hs@).skip(i as int);
        assert(rest[0] == hs@[i as int]@);
        assert(rest.drop_first() =~= header_views(hs@).skip(i + 1));
        if names_match(hs[i].name.as_str(), name) {
            return Some(&hs[i].value);
        }
        i += 1;
    }
    assert(header_views(hs@).skip(hs@.len() as int).len() == 0);
    None
}

/// Lowering a name twice is lowering it once.
pub proof fn lemma_lowered_twice(name: Seq<char>)
    ensures
        lowered(lowered(name)) == lowered(name),
{
    assert forall|i: int| 0 <= i < name.len() implies crate::text::lower(
        crate::text::lower(name[i]),
    ) == crate::text::lower(name[i]) by {
        let c = name[i];
        if 'A' <= c <= 'Z' {
            assert(((c as u32 + 32) as u8) as char >= 'a');
        }
    }
    assert(lowered(lowered(name)) =~= lowered(name));
}

/// None of the headers that are left without `name` is named `name`.
pub proof fn lemma_without_has_none(hs: Seq<HeaderView>, name: Seq<char>)
    ensures
        forall|i: int|
            0 <= i < without(hs, name).len() ==> !same_name(
                (#[trigger] without(hs, name)[i]).0,
                name,
            ),
    decreases hs.len(),
{
    if hs.len() > 0 {
        lemma_without_has_none(hs.drop_last(), name);
        let rest = without(hs.drop_last(), name);
        assert forall|i: int| 0 <= i < without(hs, name).len() implies !same_name(
            (#[trigger] without(hs, name)[i]).0,
            name,
        ) by {
            if i < rest.len() {
                assert(without(hs, name)[i] == rest[i]);
            }
        }
    }
}

/// Behind headers of other names, a header is found by its name.
pub proof fn lemma_value_of_last(hs: Seq<HeaderView>, last: HeaderView, name: Seq<char>)
    requires
        forall|i: int| 0 <= i < hs.len() ==> !same_name((#[trigger] hs[i]).0, name),
        same_name(last.0, name),
    ensures
        value_of(hs.push(last), name) == Some(last.1),
    decreases hs.len(),
{
    if hs.len() > 0 {
        assert(hs.push(last)[0] == hs[0]);
        assert(hs.push(last).drop_first() =~= hs.drop_first().push(last));
        assert forall|i: int| 0 <= i < hs.drop_first().len() implies !same_name(
            (#[trigger] hs.drop_first()[i]).0,
            name,
        ) by {
            assert(hs.drop_first()[i] == hs[i + 1]);
        }
        lemma_value_of_last(hs.drop_first(), last, name);
    } else {
        assert(hs.push(last)[0] == last);
    }
}

/// A header that has been set is found under its name, with the value it
/// was set to.
pub proof fn lemma_set_header_is_found(hs: Seq<HeaderView>, name: Seq<char>, value: Seq<u8>)
    ensures
        value_of(with_header(hs, name, value), name) == Some(value),
{
    lemma_lowered_twice(name);
    lemma_without_has_none(hs, name);
    lemma_value_of_last(without(hs, name), (lowered(name), value), name);
}

} // verus!
