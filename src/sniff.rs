//! Classification of a buffer as image or video from its byte signature,
//! with an optional cross-check of the file name's extension.
use vstd::prelude::*;
use crate::chars::{chars_of, ends_with, has_suffix};

verus! {

/// The kind of media that an accepted file holds.
#[derive(Clone, Copy, Debug, PartialEq, Eq, Structural)]
pub enum MediaKind {
    Image,
    Video,
}

impl MediaKind {
    /// The tag under which the kind is reported: `"image"` or `"video"`.
    pub fn as_str(&self) -> (r: &'static str)
        ensures
            *self == MediaKind::Image ==> r@ == "image"@,
            *self == MediaKind::Video ==> r@ == "video"@,
    {
        match self {
            MediaKind::Image => "image",
            MediaKind::Video => "video",
        }
    }
}

/// The family of formats that a recognised signature belongs to.
#[derive(Clone, Copy, Debug, PartialEq, Eq, Structural)]
pub enum Family {
    App,
    Archive,
    Audio,
    Book,
    Doc,
    Font,
    Image,
    Text,
    Video,
    Custom,
}

/// A recognised signature: its family and the canonical extension of its format.
pub struct Signature {
    pub family: Family,
    pub extension: String,
}

pub open spec fn signature_view(s: Option<Signature>) -> Option<(Family, Seq<char>)> {
    match s {
        None => None,
        Some(sig) => Some((sig.family, sig.extension@)),
    }
}

/// What the signature table recognises in a buffer: the family and the
/// canonical extension of the first matching format, if any.
pub uninterp spec fn sniffed_of(contents: Seq<u8>) -> Option<(Family, Seq<char>)>;

/// The lower-case form of a string.
pub uninterp spec fn lower_of(s: Seq<char>) -> Seq<char>;

/// Relies on `infer::get`: the first format of infer's signature table that
/// matches the buffer, which depends on the buffer alone. The format's
/// `matcher_type` (one family for each variant) and `extension` are handed
/// back as plain values.
#[verifier::external_body]
fn sniff(contents: &[u8]) -> (r: Option<Signature>)
    ensures
        signature_view(r) == sniffed_of(contents@),
{
    infer::get(contents).map(|t| Signature {
        family: match t.matcher_type() {
            infer::MatcherType::App => Family::App, infer::MatcherType::Archive => Family::Archive,
            infer::MatcherType::Audio => Family::Audio, infer::MatcherType::Book => Family::Book,
            infer::MatcherType::Doc => Family::Doc, infer::MatcherType::Font => Family::Font,
            infer::MatcherType::Image => Family::Image, infer::MatcherType::Text => Family::Text,
            infer::MatcherType::Video => Family::Video, infer::MatcherType::Custom => Family::Custom,
        },
        extension: t.extension().to_string(),
    })
}

/// Relies on `str::to_lowercase`: the result depends on the characters alone.
#[verifier::external_body]
fn lowercase(s: &str) -> (r: String)
    ensures
        r@ == lower_of(s@),
{
    s.to_lowercase()
}

pub open spec fn kind_of_family(f: Family) -> Option<MediaKind> {
    match f {
        Family::Image => Some(MediaKind::Image),
        Family::Video => Some(MediaKind::Video),
        _ => None,
    }
}

pub open spec fn jpeg_alias() -> Seq<char> {
    seq!['.', 'j', 'p', 'e', 'g']
}

pub open spec fn tiff_alias() -> Seq<char> {
    seq!['.', 't', 'i', 'f', 'f']
}

/// Whether a lower-cased file name carries the extension `ext`.
///
/// The alias table: a name ending in `.jpeg` matches exactly the extension
/// `jpg`, one ending in `.tiff` exactly `tif`; any other name matches when it
/// ends with a period followed by `ext`.
pub open spec fn extension_matches(lowered: Seq<char>, ext: Seq<char>) -> bool {
    if ends_with(lowered, jpeg_alias()) {
        ext == seq!['j', 'p', 'g']
    } else if ends_with(lowered, tiff_alias()) {
        ext == seq!['t', 'i', 'f']
    } else {
        ends_with(lowered, seq!['.'] + ext)
    }
}

/// The verdict on a buffer whose signature is `sniffed`, stored under a name
/// whose lower-case form is `lowered`.
pub open spec fn file_verdict(
    sniffed: Option<(Family, Seq<char>)>,
    lowered: Seq<char>,
    check_extension: bool,
) -> Option<MediaKind> {
    match sniffed {
        None => None,
        Some((family, ext)) => if check_extension && !extension_matches(lowered, ext) {
            None
        } else {
            kind_of_family(family)
        },
    }
}

pub fn media_kind_of(family: Family) -> (r: Option<MediaKind>)
    ensures
        r == kind_of_family(family),
{
    match family {
        Family::Image => Some(MediaKind::Image),
        Family::Video => Some(MediaKind::Video),
        _ => None,
    }
}

/// Whether the lower-cased name `lowered` carries the extension `ext`.
pub fn extension_matches_lowered(lowered: &str, ext: &str) -> (r: bool)
    ensures
        r == extension_matches(lowered@, ext@),
{
    let name = chars_of(lowered);
    let jpeg = chars_of(".jpeg");
    let tiff = chars_of(".tiff");
    proof {
        reveal_strlit(".jpeg");
        reveal_strlit(".tiff");
        assert(jpeg@ =~= jpeg_alias());
        assert(tiff@ =~= tiff_alias());
    }
    if has_suffix(&name, &jpeg) {
        let jpg = chars_of("jpg");
        let e = chars_of(ext);
        proof {
            reveal_strlit("jpg");
        }
        assert(jpg@ =~= seq!['j', 'p', 'g']);
        let r = e.len() == 3 && has_suffix(&e, &jpg);
        proof {
            if e@.len() == 3 {
                assert(e@.subrange(0, 3) =~= e@);
            }
        }
        return r;
    }
    if has_suffix(&name, &tiff) {
        let tif = chars_of("tif");
        let e = chars_of(ext);
        proof {
            reveal_strlit("tif");
        }
        assert(tif@ =~= seq!['t', 'i', 'f']);
        let r = e.len() == 3 && has_suffix(&e, &tif);
        proof {
            if e@.len() == 3 {
                assert(e@.subrange(0, 3) =~= e@);
            }
        }
        return r;
    }
    let mut dotted: Vec<char> = Vec::new();
    dotted.push('.');
    let e = chars_of(ext);
    let mut i: usize = 0;
    while i < e.len()
        invariant
            i <= e@.len(),
            dotted@ == seq!['.'] + e@.subrange(0, i as int),
        decreases e@.len() - i,
    {
        dotted.push(e[i]);
        i = i + 1;
        assert(dotted@ =~= seq!['.'] + e@.subrange(0, i as int));
    }
    assert(e@.subrange(0, e@.len() as int) =~= e@);
    has_suffix(&name, &dotted)
}

/// Whether the file name `path` carries the extension `ext`, ignoring case.
pub fn match_extension(path: &str, ext: &str) -> (r: bool)
    ensures
        r == extension_matches(lower_of(path@), ext@),
{
    let lowered = lowercase(path);
    extension_matches_lowered(lowered.as_str(), ext)
}

/// The verdict on a sniffed signature: the media kind when the family is
/// image or video and, if `check_extension` holds, the lower-cased name
/// `lowered` carries the signature's extension; otherwise `None`.
pub fn judge_signature(sniffed: Option<Signature>, lowered: &str, check_extension: bool) -> (r:
    Option<MediaKind>)
    ensures
        r == file_verdict(signature_view(sniffed), lowered@, check_extension),
{
    match sniffed {
        None => None,
        Some(sig) => {
            if check_extension && !extension_matches_lowered(lowered, sig.extension.as_str()) {
                None
            } else {
                media_kind_of(sig.family)
            }
        },
    }
}

/// The media kind of a buffer from its signature alone, whatever its name.
pub fn classify(contents: &[u8]) -> (r: Option<MediaKind>)
    ensures
        r == match sniffed_of(contents@) {
            None => None,
            Some((family, _)) => kind_of_family(family),
        },
{
    match sniff(contents) {
        None => None,
        Some(sig) => media_kind_of(sig.family),
    }
}

/// Validates the contents of the file stored under `path`: the media kind
/// when the signature is that of an image or a video and, if
/// `check_extension` holds, the name carries the format's extension.
/// Unknown formats, other families and mismatched extensions all give `None`.
pub fn validate_file(path: &str, contents: &[u8], check_extension: bool) -> (r: Option<
    MediaKind,
>)
    ensures
        r == file_verdict(sniffed_of(contents@), lower_of(path@), check_extension),
{
    let sniffed = sniff(contents);
    let lowered = lowercase(path);
    judge_signature(sniffed, lowered.as_str(), check_extension)
}

} // verus!
