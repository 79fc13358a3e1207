//! Endpoint addresses: parsing a base URL, and appending path segments to it.
//!
//! A URL is known by the text it was parsed from. What the parser makes of that text, the URL's
//! serialization, is where segments are appended; parsed once more, it need not be a URL again.

use std::borrow::Cow;
use vstd::prelude::*;

use crate::diagnostics::Diagnostic;
use crate::error::MoonError;
use crate::segment::segment_texts;

verus! {

/// Why a text is not a URL, [`url::ParseError`]. Its value is carried through unread.
#[verifier::external_type_specification]
#[verifier::external_body]
pub struct ExUrlParseError(url::ParseError);

/// What [`url::Url::parse`] makes of a text: the serialization of the URL, or nothing if the text
/// is not an absolute URL.
pub uninterp spec fn parsed_url(input: Seq<char>) -> Option<Seq<char>>;

/// What becomes of a URL when one trailing slash of its path is dropped and path segments are
/// appended: the serialization that [`url::Url::path_segments_mut`] leaves behind after
/// `pop_if_empty` and `extend`.
pub uninterp spec fn extended_url(url: Seq<char>, segments: Seq<Seq<char>>) -> Option<Seq<char>>;

/// The position of the first `c` at or after `from`, or the length of the text.
pub open spec fn position_from(text: Seq<char>, c: char, from: int) -> int
    decreases text.len() - from,
{
    if from < 0 || from >= text.len() {
        text.len() as int
    } else if text[from] == c {
        from
    } else {
        position_from(text, c, from + 1)
    }
}

/// Whether a URL cannot have path segments: its scheme and the colon are not followed by a slash,
/// as in `mailto:` and `data:` URLs.
pub open spec fn cannot_be_a_base(url: Seq<char>) -> bool {
    let after = position_from(url, ':', 0) + 1;
    !(after < url.len() && url[after] == '/')
}

/// Where the host of an `http` or `https` URL begins; 0 for any other text.
pub open spec fn host_start(url: Seq<char>) -> int {
    if "http://"@.is_prefix_of(url) {
        7
    } else if "https://"@.is_prefix_of(url) {
        8
    } else {
        0
    }
}

/// An `http` or `https` URL.
pub open spec fn is_web_url(url: Seq<char>) -> bool {
    host_start(url) > 0
}

/// The part of an `http` or `https` URL before its path: scheme, host and port.
pub open spec fn origin(url: Seq<char>) -> Seq<char> {
    url.take(position_from(url, '/', host_start(url)))
}

/// A character that a path holds as it is, and that never has a meaning of its own there.
pub open spec fn is_plain_char(c: char) -> bool {
    ('a' <= c && c <= 'z') || ('A' <= c && c <= 'Z') || ('0' <= c && c <= '9') || c == '-' || c
        == '_' || c == '~' || c == '.'
}

/// A segment that a path holds as it is: plain characters only, not empty, and neither `.` nor
/// `..`, which paths give a meaning of their own.
pub open spec fn is_plain_segment(segment: Seq<char>) -> bool {
    &&& segment.len() > 0
    &&& forall|i: int| 0 <= i < segment.len() ==> is_plain_char(#[trigger] segment[i])
    &&& segment != seq!['.']
    &&& segment != seq!['.', '.']
}

/// The serialization of an `http` or `https` URL that ends with its path, which does not end in two
/// slashes.
pub open spec fn is_plain_base(url: Seq<char>) -> bool {
    &&& is_web_url(url)
    &&& !url.contains('?')
    &&& !url.contains('#')
    &&& !(url[url.len() - 1] == '/' && url[url.len() - 2] == '/')
}

/// The text without one trailing slash, if it has one.
pub open spec fn without_trailing_slash(url: Seq<char>) -> Seq<char> {
    if url.len() > 0 && url.last() == '/' {
        url.drop_last()
    } else {
        url
    }
}

/// A base followed by the segments, each behind a slash.
pub open spec fn appended(base: Seq<char>, segments: Seq<Seq<char>>) -> Seq<char>
    decreases segments.len(),
{
    if segments.len() == 0 {
        base
    } else {
        appended(base, segments.drop_last()) + "/"@ + segments.last()
    }
}

/// No two neighbouring slashes from position `from` on.
pub open spec fn has_no_double_slash(text: Seq<char>, from: int) -> bool {
    forall|i: int|
        from <= i && 0 <= i && i + 1 < text.len() ==> !(#[trigger] text[i] == '/' && text[i + 1]
            == '/')
}

/// A segment that leaves no gap in a path: it is not empty, and holds no tab and no line end, which
/// paths pass over.
pub open spec fn is_solid_segment(segment: Seq<char>) -> bool {
    segment.len() > 0 && !segment.contains('\t') && !segment.contains('\n') && !segment.contains(
        '\r',
    )
}

/// The number of characters in all segments, and one more for each.
pub open spec fn segments_len(segments: Seq<Seq<char>>) -> nat
    decreases segments.len(),
{
    if segments.len() == 0 {
        0
    } else {
        segments_len(segments.drop_last()) + segments.last().len() + 1
    }
}

/// Whether a URL with this serialization is sure to stay within the 4 GiB that it can count when the
/// segments are appended. A serialization is ASCII text, and no character of a segment takes more
/// than 12 bytes once it is encoded.
pub open spec fn has_room(url: Seq<char>, segments: Seq<Seq<char>>) -> bool {
    url.len() + 12 * segments_len(segments) <= u32::MAX
}

/// The most characters of a text that is parsed as a URL: the parser counts them in 31 bits.
pub const LONGEST_URL: usize = 0x7fff_ffff;

/// Calls [`url::Url::parse`]. A text beyond [`LONGEST_URL`] could make the call panic.
#[verifier::external_body]
fn parse_url(input: &str) -> (parsed: Result<String, url::ParseError>)
    requires
        input@.len() <= LONGEST_URL,
    ensures
        match parsed {
            Ok(url) => parsed_url(input@) == Some(url@),
            Err(_) => parsed_url(input@) is None,
        },
{
    url::Url::parse(input).map(String::from)
}

/// What is sure of the address that comes of appending segments to a URL with this serialization:
///
/// - In an `http` or `https` URL the part before the path stays as it is, and a path follows it.
/// - Where that URL has neither query nor fragment and its path does not end in two slashes, segments
///   of plain characters are appended as they are, each behind one slash.
/// - If moreover its path has no double slash, none comes in with segments that are not empty and
///   hold neither tabs nor line ends.
pub open spec fn is_extension(
    parsed: Seq<char>,
    segments: Seq<Seq<char>>,
    address: Seq<char>,
) -> bool {
    &&& is_web_url(parsed) ==> origin(parsed).push('/').is_prefix_of(address)
    &&& is_plain_base(parsed) && segments.len() > 0 && (forall|i: int|
        0 <= i < segments.len() ==> is_plain_segment(#[trigger] segments[i])) ==> address
        == appended(without_trailing_slash(parsed), segments)
    &&& is_plain_base(parsed) && has_no_double_slash(parsed, host_start(parsed)) && (forall|i: int|
        0 <= i < segments.len() ==> is_solid_segment(#[trigger] segments[i]))
        ==> has_no_double_slash(address, host_start(parsed))
}

/// Calls [`url::Url::parse`], and `pop_if_empty` and `extend` on what
/// [`url::Url::path_segments_mut`] gives for the URL.
///
/// There are no segments to extend if the text is not a URL, or if the URL cannot be a base.
/// Otherwise the serialization of the URL is extended as [`is_extension`] says: `.` and `..` are left
/// out, a slash inside a segment is encoded, and plain characters are not. An address beyond 4 GiB
/// would make the call panic.
#[verifier::external_body]
fn extend_path(url: &str, segments: &Vec<Cow<'_, str>>) -> (extended: Option<String>)
    requires
        url@.len() <= LONGEST_URL,
        parsed_url(url@) matches Some(parsed) ==> has_room(parsed, segment_texts(segments@)),
    ensures
        extended is Some <==> (parsed_url(url@) matches Some(parsed) && !cannot_be_a_base(parsed)),
        extended is Some <==> extended_url(url@, segment_texts(segments@)) is Some,
        extended matches Some(text) ==> {
            &&& extended_url(url@, segment_texts(segments@)) == Some(text@)
            &&& parsed_url(url@) matches Some(parsed) && is_extension(
                parsed,
                segment_texts(segments@),
                text@,
            )
        },
{
    let mut parsed = url::Url::parse(url).ok()?;
    parsed.path_segments_mut().ok()?.pop_if_empty().extend(segments);
    Some(parsed.into())
}

/// Whether the segments can be appended to a URL with this serialization.
fn fits(url: &str, segments: &Vec<Cow<'_, str>>) -> (room: bool)
    ensures
        room == has_room(url@, segment_texts(segments@)),
{
    let ghost texts = segment_texts(segments@);
    let mut total: u128 = url.unicode_len() as u128;
    assert(texts.take(0) =~= Seq::<Seq<char>>::empty());
    for i in 0..segments.len()
        invariant
            texts == segment_texts(segments@),
            total == url@.len() + 12 * segments_len(texts.take(i as int)),
            total <= u64::MAX,
    {
        let length: usize = match &segments[i] {
            Cow::Borrowed(text) => text.unicode_len(),
            Cow::Owned(text) => text.as_str().unicode_len(),
        };
        proof {
            assert(texts.take(i + 1).drop_last() =~= texts.take(i as int));
            assert(texts.take(i + 1).last() == segments@[i as int]@);
            lemma_segments_len_grows(texts, i + 1);
        }
        total = total + 12 * (length as u128 + 1);
        if total > u32::MAX as u128 {
            return false;
        }
    }
    assert(texts.take(texts.len() as int) =~= texts);
    total <= u32::MAX as u128
}

proof fn lemma_segments_len_grows(segments: Seq<Seq<char>>, n: int)
    requires
        0 <= n <= segments.len(),
    ensures
        segments_len(segments.take(n)) <= segments_len(segments),
    decreases segments.len(),
{
    if n < segments.len() {
        lemma_segments_len_grows(segments.drop_last(), n);
        assert(segments.drop_last().take(n) =~= segments.take(n));
    } else {
        assert(segments.take(n) =~= segments);
    }
}

/// Finds the first `c` at or after `from`.
fn find_from(text: &str, c: char, from: usize) -> (position: usize)
    requires
        from <= text@.len(),
    ensures
        position == position_from(text@, c, from as int),
        from <= position <= text@.len(),
{
    let length: usize = text.unicode_len();
    let mut position: usize = from;
    while position < length && text.get_char(position) != c
        invariant
            length == text@.len(),
            from <= position <= length,
            position_from(text@, c, from as int) == position_from(text@, c, position as int),
        decreases length - position,
    {
        position = position + 1;
    }
    position
}

/// Whether a URL cannot have path segments.
fn lacks_path_segments(url: &str) -> (lacks: bool)
    ensures
        lacks == cannot_be_a_base(url@),
{
    let colon: usize = find_from(url, ':', 0);
    let length: usize = url.unicode_len();
    !(colon < length && colon + 1 < length && url.get_char(colon + 1) == '/')
}

/// What can be the base of endpoint addresses: a URL that can have path segments, parsed from a text
/// of at most [`LONGEST_URL`] characters.
pub open spec fn base_url_of(input: Seq<char>) -> Option<Seq<char>> {
    match parsed_url(input) {
        Some(url) => if input.len() > LONGEST_URL || cannot_be_a_base(url) {
            None
        } else {
            Some(url)
        },
        None => None,
    }
}

/// Parses a base URL. The result is its serialization, or nothing if the text is too long, or not a
/// URL, or a URL that cannot have path segments.
pub fn parse_base_url(input: &str) -> (base: Option<String>)
    ensures
        match base {
            Some(url) => base_url_of(input@) == Some(url@),
            None => base_url_of(input@) is None,
        },
{
    if input.unicode_len() > LONGEST_URL {
        return None;
    }
    match parse_url(input) {
        Ok(url) => if lacks_path_segments(url.as_str()) {
            None
        } else {
            Some(url)
        },
        Err(_) => None,
    }
}

/// Appends path segments to the URL that a text holds.
///
/// One trailing slash of the base makes no difference. Slashes inside a segment are encoded. The
/// segments `.` and `..` are left out, and tabs and line ends inside a segment are passed over; what
/// then comes down to dots can make the path shorter. If the base cannot have path segments, or the
/// address might not fit into what a URL can count, the result is [`MoonError::Config`] with what
/// `translate` makes of [`Diagnostic::InvalidMacroBaseUrl`].
pub fn build_url<F: FnOnce(Diagnostic) -> String>(
    base_url: &str,
    segments: &Vec<Cow<'_, str>>,
    translate: F,
) -> (endpoint: Result<String, MoonError>)
    requires
        translate.requires((Diagnostic::InvalidMacroBaseUrl,)),
    ensures
        endpoint is Ok <==> (base_url_of(base_url@) matches Some(parsed) && has_room(
            parsed,
            segment_texts(segments@),
        )),
        match endpoint {
            Ok(url) => {
                &&& extended_url(base_url@, segment_texts(segments@)) == Some(url@)
                &&& base_url_of(base_url@) matches Some(parsed) && is_extension(
                    parsed,
                    segment_texts(segments@),
                    url@,
                )
            },
            Err(error) => error matches MoonError::Config(text) && translate.ensures(
                (Diagnostic::InvalidMacroBaseUrl,),
                text,
            ),
        },
{
    if let Some(parsed) = parse_base_url(base_url) {
        if fits(parsed.as_str(), segments) {
            if let Some(url) = extend_path(base_url, segments) {
                return Ok(url);
            }
        }
    }
    Err(MoonError::Config(translate(Diagnostic::InvalidMacroBaseUrl)))
}

proof fn lemma_appended_starts_with_base(base: Seq<char>, segments: Seq<Seq<char>>)
    ensures
        base.is_prefix_of(appended(base, segments)),
    decreases segments.len(),
{
    if segments.len() > 0 {
        lemma_appended_starts_with_base(base, segments.drop_last());
        let shorter = appended(base, segments.drop_last());
        let full = appended(base, segments);
        assert(full.take(base.len() as int) =~= shorter.take(base.len() as int));
    } else {
        assert(base.take(base.len() as int) =~= base);
    }
}

proof fn lemma_appended_has_no_double_slash(
    base: Seq<char>,
    segments: Seq<Seq<char>>,
    from: int,
)
    requires
        0 <= from,
        base.len() > 0,
        has_no_double_slash(base, from),
        base.last() != '/',
        forall|i: int| 0 <= i < segments.len() ==> is_plain_segment(#[trigger] segments[i]),
    ensures
        has_no_double_slash(appended(base, segments), from),
        appended(base, segments).len() > 0,
        appended(base, segments).last() != '/',
    decreases segments.len(),
{
    if segments.len() > 0 {
        let shorter = appended(base, segments.drop_last());
        let segment = segments.last();
        assert(is_plain_segment(segments[segments.len() - 1]));
        lemma_appended_has_no_double_slash(base, segments.drop_last(), from);
        reveal_strlit("/");
        let full = appended(base, segments);
        assert(full =~= shorter + seq!['/'] + segment);
        assert forall|i: int|
            from <= i && 0 <= i && i + 1 < full.len() implies !(#[trigger] full[i] == '/' && full[i
            + 1] == '/') by {
            if i + 1 < shorter.len() {
                assert(shorter[i] == full[i]);
            } else if i + 1 == shorter.len() {
                assert(full[i] == shorter.last());
            } else {
                assert(is_plain_char(segment[i - shorter.len()]));
            }
        }
        assert(is_plain_char(segment[segment.len() - 1]));
    }
}

/// Appending plain segments to a base whose own path is free of double slashes gives an address
/// whose path is free of them too, whether or not the base ends in a slash.
pub proof fn law_no_double_slash(base: Seq<char>, segments: Seq<Seq<char>>)
    requires
        is_plain_base(base),
        has_no_double_slash(base, host_start(base)),
        position_from(base, '/', host_start(base)) > host_start(base),
        forall|i: int| 0 <= i < segments.len() ==> is_plain_segment(#[trigger] segments[i]),
    ensures
        has_no_double_slash(appended(without_trailing_slash(base), segments), host_start(base)),
{
    let stem = without_trailing_slash(base);
    reveal_strlit("http://");
    reveal_strlit("https://");
    let from = host_start(base);
    assert(base[from] != '/');
    assert(base.len() > from);
    if base.last() == '/' {
        assert(base[base.len() - 2] != '/');
        assert(stem.last() == base[base.len() - 2]);
        assert forall|i: int|
            from <= i && 0 <= i && i + 1 < stem.len() implies !(#[trigger] stem[i] == '/' && stem[i
            + 1] == '/') by {
            assert(base[i] == stem[i]);
        }
    }
    lemma_appended_has_no_double_slash(stem, segments, from);
}

/// One trailing slash of the base makes no difference to the address.
pub proof fn law_trailing_slash_is_ignored(base: Seq<char>, segments: Seq<Seq<char>>)
    requires
        base.len() > 0,
        base.last() != '/',
    ensures
        appended(without_trailing_slash(base.push('/')), segments) == appended(
            without_trailing_slash(base),
            segments,
        ),
{
    assert(base.push('/').drop_last() =~= base);
}

/// Appending segments in two goes is appending them in one.
pub proof fn law_segments_append_in_turn(
    base: Seq<char>,
    first: Seq<Seq<char>>,
    second: Seq<Seq<char>>,
)
    ensures
        appended(appended(base, first), second) == appended(base, first + second),
    decreases second.len(),
{
    if second.len() > 0 {
        law_segments_append_in_turn(base, first, second.drop_last());
        assert((first + second).drop_last() =~= first + second.drop_last());
    } else {
        assert(first + second =~= first);
    }
}

/// The address keeps the base at its start: the scheme and the host are never replaced.
pub proof fn law_base_is_kept(base: Seq<char>, segments: Seq<Seq<char>>)
    ensures
        without_trailing_slash(base).is_prefix_of(
            appended(without_trailing_slash(base), segments),
        ),
{
    lemma_appended_starts_with_base(without_trailing_slash(base), segments);
}

/// A text is a base exactly when it is not too long, and parses to a URL in which a slash follows the
/// first colon.
pub proof fn law_what_can_be_a_base(input: Seq<char>, url: Seq<char>, colon: int)
    requires
        parsed_url(input) == Some(url),
        0 <= colon < url.len(),
        url[colon] == ':',
        forall|i: int| 0 <= i < colon ==> url[i] != ':',
    ensures
        base_url_of(input) == if input.len() <= 0x7fff_ffff && colon + 1 < url.len() && url[colon
            + 1] == '/' {
            Some(url)
        } else {
            None
        },
{
    lemma_position_is_first(url, ':', 0, colon);
}

/// What does not parse is no base.
pub proof fn law_only_urls_are_bases(input: Seq<char>)
    requires
        parsed_url(input) is None,
    ensures
        base_url_of(input) is None,
{
}

proof fn lemma_position_is_first(text: Seq<char>, c: char, from: int, at: int)
    requires
        0 <= from <= at < text.len(),
        text[at] == c,
        forall|i: int| from <= i < at ==> text[i] != c,
    ensures
        position_from(text, c, from) == at,
    decreases at - from,
{
    if from < at {
        lemma_position_is_first(text, c, from + 1, at);
    }
}

/// Appending nothing changes nothing, and each further segment adds a slash and itself.
pub proof fn law_each_segment_adds_a_slash(
    base: Seq<char>,
    segments: Seq<Seq<char>>,
    segment: Seq<char>,
)
    ensures
        appended(base, Seq::empty()) == base,
        appended(base, segments.push(segment)) == appended(base, segments) + seq!['/'] + segment,
        without_trailing_slash(base.push('/')) == base,
        base.len() > 0 && base.last() != '/' ==> without_trailing_slash(base) == base,
{
    reveal_strlit("/");
    assert("/"@ =~= seq!['/']);
    assert(segments.push(segment).drop_last() =~= segments);
    assert(base.push('/').drop_last() =~= base);
}

/// The part of a web address before its path begins with the scheme and two slashes, and ends before
/// the next slash.
pub proof fn law_origin_ends_before_the_path(url: Seq<char>, slash: int)
    requires
        "https://"@.is_prefix_of(url) || "http://"@.is_prefix_of(url),
        ({
            let start = if "https://"@.is_prefix_of(url) {
                8int
            } else {
                7int
            };
            &&& start <= slash < url.len()
            &&& url[slash] == '/'
            &&& forall|i: int| start <= i < slash ==> url[i] != '/'
        }),
    ensures
        is_web_url(url),
        origin(url) == url.take(slash),
{
    reveal_strlit("https://");
    reveal_strlit("http://");
    if "https://"@.is_prefix_of(url) {
        assert("https://"@[4] == url[4]);
        assert(!"http://"@.is_prefix_of(url)) by {
            if "http://"@.is_prefix_of(url) {
                assert("http://"@[4] == url[4]);
            }
        }
    }
    lemma_position_is_first(url, '/', host_start(url), slash);
}

/// There is room for an address as long as the URL and twelve bytes for each character and each slash
/// that is appended stay within 32 bits.
pub proof fn law_room_counts_every_character(
    url: Seq<char>,
    segments: Seq<Seq<char>>,
    segment: Seq<char>,
)
    ensures
        segments_len(Seq::empty()) == 0,
        segments_len(segments.push(segment)) == segments_len(segments) + segment.len() + 1,
        has_room(url, segments) <==> url.len() + 12 * segments_len(segments) <= 0xffff_ffff,
{
    assert(segments.push(segment).drop_last() =~= segments);
}

/// An address that comes of appending segments keeps the scheme and the host, holds plain segments as
/// they are, and brings in no double slash.
pub proof fn law_extension_keeps_the_base(
    parsed: Seq<char>,
    segments: Seq<Seq<char>>,
    address: Seq<char>,
)
    requires
        is_extension(parsed, segments, address),
    ensures
        is_web_url(parsed) ==> origin(parsed).is_prefix_of(address) && address.len() > origin(
            parsed,
        ).len() && address[origin(parsed).len() as int] == '/',
        is_plain_base(parsed) && segments.len() > 0 && (forall|i: int|
            0 <= i < segments.len() ==> is_plain_segment(#[trigger] segments[i])) ==> address
            == appended(without_trailing_slash(parsed), segments),
        is_plain_base(parsed) && has_no_double_slash(parsed, host_start(parsed)) && (forall|i: int|
            0 <= i < segments.len() ==> is_solid_segment(#[trigger] segments[i]))
            ==> has_no_double_slash(address, host_start(parsed)),
{
    if is_web_url(parsed) {
        let start = origin(parsed).push('/');
        assert(start.is_prefix_of(address));
        assert(start[origin(parsed).len() as int] == address[origin(parsed).len() as int]);
        assert(origin(parsed) =~= address.take(origin(parsed).len() as int));
    }
}

} // verus!
