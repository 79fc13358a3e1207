//! Values that can stand as one segment of a URL path.

use std::borrow::Cow;
use vstd::prelude::*;

use crate::text::{
    decimal, decimal_text, is_number, law_decimal_reads_back, law_signed_decimal_reads_back,
    number_of, signed_decimal, signed_decimal_text,
};

verus! {

/// A value that can stand as one segment of a URL path.
///
/// Text is borrowed; numbers are written in base ten. Types of other crates, such as enumerations
/// of routes, can take part by implementing this trait.
pub trait IntoSegment {
    /// The text of the segment.
    spec fn segment(&self) -> Seq<char>;

    /// The text of the segment, borrowed where possible.
    fn to_segment(&self) -> (text: Cow<'_, str>)
        ensures
            text@ == self.segment(),
    ;
}

impl<'a> IntoSegment for &'a str {
    open spec fn segment(&self) -> Seq<char> {
        (*self)@
    }

    fn to_segment(&self) -> (text: Cow<'_, str>)
        ensures
            text is Borrowed,
    {
        Cow::Borrowed(self)
    }
}

impl IntoSegment for String {
    open spec fn segment(&self) -> Seq<char> {
        self@
    }

    fn to_segment(&self) -> (text: Cow<'_, str>)
        ensures
            text is Borrowed,
    {
        Cow::Borrowed(self.as_str())
    }
}

impl IntoSegment for i32 {
    open spec fn segment(&self) -> Seq<char> {
        signed_decimal(*self as int)
    }

    fn to_segment(&self) -> (text: Cow<'_, str>) {
        Cow::Owned(signed_decimal_text(*self as i64))
    }
}

impl IntoSegment for u32 {
    open spec fn segment(&self) -> Seq<char> {
        decimal(*self as nat)
    }

    fn to_segment(&self) -> (text: Cow<'_, str>) {
        Cow::Owned(decimal_text(*self as u64))
    }
}

impl IntoSegment for i64 {
    open spec fn segment(&self) -> Seq<char> {
        signed_decimal(*self as int)
    }

    fn to_segment(&self) -> (text: Cow<'_, str>) {
        Cow::Owned(signed_decimal_text(*self))
    }
}

impl IntoSegment for u64 {
    open spec fn segment(&self) -> Seq<char> {
        decimal(*self as nat)
    }

    fn to_segment(&self) -> (text: Cow<'_, str>) {
        Cow::Owned(decimal_text(*self))
    }
}

impl<'a, T: IntoSegment + ?Sized> IntoSegment for &'a T {
    open spec fn segment(&self) -> Seq<char> {
        (**self).segment()
    }

    fn to_segment(&self) -> (text: Cow<'_, str>) {
        (*self).to_segment()
    }
}

/// The texts of a list of segments.
pub open spec fn segment_texts(segments: Seq<Cow<'_, str>>) -> Seq<Seq<char>> {
    segments.map_values(|segment: Cow<'_, str>| segment@)
}

/// The segment of an unsigned number is the number in base ten: it reads back as the number and has
/// no leading zero, so that different numbers have different segments.
pub proof fn law_unsigned_segments_read_back(a: u32, b: u64)
    ensures
        number_of(a.segment()) == a,
        is_number(a.segment()),
        a.segment().len() >= 1,
        a.segment().len() > 1 ==> a.segment()[0] != '0',
        number_of(b.segment()) == b,
        is_number(b.segment()),
        b.segment().len() >= 1,
        b.segment().len() > 1 ==> b.segment()[0] != '0',
{
    law_decimal_reads_back(a as nat);
    law_decimal_reads_back(b as nat);
}

/// The segment of a signed number is the number in base ten, behind a minus sign if it is negative.
pub proof fn law_signed_segments_read_back(a: i32, b: i64)
    ensures
        a >= 0 ==> is_number(a.segment()) && number_of(a.segment()) == a,
        a < 0 ==> a.segment()[0] == '-' && is_number(a.segment().skip(1)) && number_of(
            a.segment().skip(1),
        ) == -a && a.segment().len() > 1 && a.segment()[1] != '0',
        a.segment().len() > 1 ==> a.segment()[0] != '0',
        b >= 0 ==> is_number(b.segment()) && number_of(b.segment()) == b,
        b < 0 ==> b.segment()[0] == '-' && is_number(b.segment().skip(1)) && number_of(
            b.segment().skip(1),
        ) == -b && b.segment().len() > 1 && b.segment()[1] != '0',
        b.segment().len() > 1 ==> b.segment()[0] != '0',
        a.segment().len() >= 1,
        b.segment().len() >= 1,
{
    law_signed_decimal_reads_back(a as int);
    law_signed_decimal_reads_back(b as int);
}

/// Numbers of different types have the same segment exactly when they are the same number.
pub proof fn law_segments_tell_numbers_apart(a: u32, b: u64, c: i32, d: i64)
    ensures
        a.segment() == b.segment() <==> a == b,
        c.segment() == d.segment() <==> c == d,
        b.segment() == d.segment() <==> b == d,
{
    law_unsigned_segments_read_back(a, b);
    law_signed_segments_read_back(c, d);
    if c < 0 {
        assert(!is_number(c.segment())) by {
            assert(c.segment()[0] == '-');
        }
    }
    if d < 0 {
        assert(!is_number(d.segment())) by {
            assert(d.segment()[0] == '-');
        }
    }
}

/// The segment of a text is the text, whole and unchanged, owned or borrowed, and a reference to a
/// value has the segment of the value.
pub proof fn law_text_is_its_own_segment(text: &str, owned: String, number: u32)
    ensures
        text.segment() == text@,
        owned.segment() == owned@,
        (&owned).segment() == owned@,
        (&text).segment() == text@,
        (&number).segment() == number.segment(),
{
}

/// The texts of a list of segments are those of its segments, one by one.
pub proof fn law_segment_texts_are_the_texts(segments: Seq<Cow<'_, str>>, i: int)
    requires
        0 <= i < segments.len(),
    ensures
        segment_texts(segments).len() == segments.len(),
        segment_texts(segments)[i] == segments[i]@,
{
}

/// What a number or a text gives as its segment reads as that number, or is that text.
pub proof fn law_segments_are_what_they_stand_for(
    a: u32,
    b: u64,
    text: &str,
    owned: String,
    of_a: Cow<'_, str>,
    of_b: Cow<'_, str>,
    of_text: Cow<'_, str>,
    of_owned: Cow<'_, str>,
)
    requires
        call_ensures(<u32 as IntoSegment>::to_segment, (&a,), of_a),
        call_ensures(<u64 as IntoSegment>::to_segment, (&b,), of_b),
        call_ensures(<&str as IntoSegment>::to_segment, (&text,), of_text),
        call_ensures(<String as IntoSegment>::to_segment, (&owned,), of_owned),
    ensures
        number_of(of_a@) == a,
        number_of(of_b@) == b,
        of_text@ == text@,
        of_owned@ == owned@,
{
    law_unsigned_segments_read_back(a, b);
}

} // verus!
