//! Typed errors of frame media preparation and draw execution, with their
//! display texts.

use vstd::prelude::*;
use crate::chars::{chars_of, owned, push_all, string_of};

verus! {

/// Id of an image the core generated (such as a color-emoji glyph bitmap).
#[derive(Clone, Copy, Debug, PartialEq, Eq, Structural, Hash)]
pub struct GeneratedImageId(pub u64);

/// Typed error for frame media preparation failures. Each variant names the
/// asset that failed, so hosts can handle failures per asset type.
#[derive(Debug)]
pub enum MediaError {
    MissingImage { asset_id: String },
    MissingVideo { asset_id: String },
    MissingLottieBundle { bundle_id: String },
    ImageDecodeFailed { asset_id: String, detail: String },
    VideoFrameDecodeFailed { asset_id: String, detail: String },
    GeneratedImageDecodeFailed { id: GeneratedImageId, detail: String },
    RuntimeEffectCompileFailed { hash: u64, detail: String },
}

/// Character of digit `d` (`0-9`, then lowercase `a-f`).
pub open spec fn digit_char_spec(d: int) -> char {
    if d == 0 {
        '0'
    } else if d == 1 {
        '1'
    } else if d == 2 {
        '2'
    } else if d == 3 {
        '3'
    } else if d == 4 {
        '4'
    } else if d == 5 {
        '5'
    } else if d == 6 {
        '6'
    } else if d == 7 {
        '7'
    } else if d == 8 {
        '8'
    } else if d == 9 {
        '9'
    } else if d == 10 {
        'a'
    } else if d == 11 {
        'b'
    } else if d == 12 {
        'c'
    } else if d == 13 {
        'd'
    } else if d == 14 {
        'e'
    } else {
        'f'
    }
}

/// Digits of `n` in `base`, most significant first, without leading zeros
/// (`"0"` for zero).
pub open spec fn digits(n: nat, base: nat) -> Seq<char>
    decreases n,
{
    if base < 2 || n < base {
        seq![digit_char_spec(n as int)]
    } else {
        proof {
            vstd::arithmetic::div_mod::lemma_div_decreases(n as int, base as int);
        }
        digits(n / base, base) + seq![digit_char_spec((n % base) as int)]
    }
}

fn digit_char(d: u64) -> (r: char)
    requires
        d < 16,
    ensures
        r == digit_char_spec(d as int),
{
    if d == 0 {
        '0'
    } else if d == 1 {
        '1'
    } else if d == 2 {
        '2'
    } else if d == 3 {
        '3'
    } else if d == 4 {
        '4'
    } else if d == 5 {
        '5'
    } else if d == 6 {
        '6'
    } else if d == 7 {
        '7'
    } else if d == 8 {
        '8'
    } else if d == 9 {
        '9'
    } else if d == 10 {
        'a'
    } else if d == 11 {
        'b'
    } else if d == 12 {
        'c'
    } else if d == 13 {
        'd'
    } else if d == 14 {
        'e'
    } else {
        'f'
    }
}

/// Appends the digits of `n` in `base`.
pub(crate) fn push_digits(out: &mut Vec<char>, n: u64, base: u64)
    requires
        2 <= base <= 16,
    ensures
        final(out)@ == old(out)@ + digits(n as nat, base as nat),
    decreases n,
{
    if n >= base {
        proof {
            vstd::arithmetic::div_mod::lemma_div_decreases(n as int, base as int);
        }
        push_digits(out, n / base, base);
    }
    out.push(digit_char(n % base));
    proof {
        if n >= base {
            assert(final(out)@ =~= old(out)@ + digits(n as nat, base as nat));
        } else {
            vstd::arithmetic::div_mod::lemma_small_mod(n as nat, base as nat);
        }
    }
}

/// Display text of a media error.
pub open spec fn media_error_text(e: MediaError) -> Seq<char> {
    match e {
        MediaError::MissingImage { asset_id } => "media error: missing image `"@ + asset_id@
            + "`"@,
        MediaError::MissingVideo { asset_id } => "media error: missing video `"@ + asset_id@
            + "`"@,
        MediaError::MissingLottieBundle { bundle_id } => "media error: missing Lottie bundle `"@
            + bundle_id@ + "`"@,
        MediaError::ImageDecodeFailed { asset_id, detail } => "media error: image `"@ + asset_id@
            + "` decode failed: "@ + detail@,
        MediaError::VideoFrameDecodeFailed { asset_id, detail } => "media error: video frame `"@
            + asset_id@ + "` decode failed: "@ + detail@,
        MediaError::GeneratedImageDecodeFailed { id, detail } =>
            "media error: generated image GeneratedImageId("@ + digits(id.0 as nat, 10)
            + ") decode failed: "@ + detail@,
        MediaError::RuntimeEffectCompileFailed { hash, detail } => "media error: runtime effect 0x"@
            + digits(hash as nat, 16) + " compile failed: "@ + detail@,
    }
}

impl MediaError {
    /// The error's display text.
    pub fn message(&self) -> (r: String)
        ensures
            r@ == media_error_text(*self),
    {
        let mut out: Vec<char> = Vec::new();
        match self {
            MediaError::MissingImage { asset_id } => {
                push_all(&mut out, &chars_of("media error: missing image `"));
                push_all(&mut out, &chars_of(asset_id.as_str()));
                push_all(&mut out, &chars_of("`"));
            },
            MediaError::MissingVideo { asset_id } => {
                push_all(&mut out, &chars_of("media error: missing video `"));
                push_all(&mut out, &chars_of(asset_id.as_str()));
                push_all(&mut out, &chars_of("`"));
            },
            MediaError::MissingLottieBundle { bundle_id } => {
                push_all(&mut out, &chars_of("media error: missing Lottie bundle `"));
                push_all(&mut out, &chars_of(bundle_id.as_str()));
                push_all(&mut out, &chars_of("`"));
            },
            MediaError::ImageDecodeFailed { asset_id, detail } => {
                push_all(&mut out, &chars_of("media error: image `"));
                push_all(&mut out, &chars_of(asset_id.as_str()));
                push_all(&mut out, &chars_of("` decode failed: "));
                push_all(&mut out, &chars_of(detail.as_str()));
            },
            MediaError::VideoFrameDecodeFailed { asset_id, detail } => {
                push_all(&mut out, &chars_of("media error: video frame `"));
                push_all(&mut out, &chars_of(asset_id.as_str()));
                push_all(&mut out, &chars_of("` decode failed: "));
                push_all(&mut out, &chars_of(detail.as_str()));
            },
            MediaError::GeneratedImageDecodeFailed { id, detail } => {
                push_all(&mut out, &chars_of("media error: generated image GeneratedImageId("));
                push_digits(&mut out, id.0, 10);
                push_all(&mut out, &chars_of(") decode failed: "));
                push_all(&mut out, &chars_of(detail.as_str()));
            },
            MediaError::RuntimeEffectCompileFailed { hash, detail } => {
                push_all(&mut out, &chars_of("media error: runtime effect 0x"));
                push_digits(&mut out, *hash, 16);
                push_all(&mut out, &chars_of(" compile failed: "));
                push_all(&mut out, &chars_of(detail.as_str()));
            },
        }
        assert(out@ =~= media_error_text(*self));
        string_of(&out)
    }
}

/// Statistics returned after a frame execution.
#[derive(Clone, Copy, Debug, PartialEq, Eq, Structural)]
pub struct DrawStats {
    pub op_count: u32,
    pub cache_hits: u32,
}

impl Default for DrawStats {
    fn default() -> (r: Self)
        ensures
            r.op_count == 0 && r.cache_hits == 0,
    {
        DrawStats { op_count: 0, cache_hits: 0 }
    }
}

/// Error of draw execution.
#[derive(Debug)]
pub struct DrawError(pub String);

impl DrawError {
    /// The error's display text: `DrawError: <detail>`.
    pub fn message(&self) -> (r: String)
        ensures
            r@ == "DrawError: "@ + self.0@,
    {
        let mut out: Vec<char> = Vec::new();
        push_all(&mut out, &chars_of("DrawError: "));
        push_all(&mut out, &chars_of(self.0.as_str()));
        string_of(&out)
    }
}

/// Error returned while preparing or executing a frame: a media failure, a
/// draw failure, or another failure given by its text.
#[derive(Debug)]
pub enum ConsumerError {
    Media(MediaError),
    Draw(DrawError),
    Other(String),
}

/// Display text of a consumer error: that of the failure it carries.
pub open spec fn consumer_error_text(e: ConsumerError) -> Seq<char> {
    match e {
        ConsumerError::Media(m) => media_error_text(m),
        ConsumerError::Draw(d) => "DrawError: "@ + d.0@,
        ConsumerError::Other(text) => text@,
    }
}

impl ConsumerError {
    /// The error's display text.
    pub fn message(&self) -> (r: String)
        ensures
            r@ == consumer_error_text(*self),
    {
        match self {
            ConsumerError::Media(m) => m.message(),
            ConsumerError::Draw(d) => d.message(),
            ConsumerError::Other(text) => owned(text.as_str()),
        }
    }
}

impl From<MediaError> for ConsumerError {
    fn from(err: MediaError) -> (r: Self) {
        ConsumerError::Media(err)
    }
}

impl vstd::std_specs::convert::FromSpecImpl<MediaError> for ConsumerError {
    open spec fn obeys_from_spec() -> bool {
        true
    }

    open spec fn from_spec(v: MediaError) -> Self {
        ConsumerError::Media(v)
    }
}

impl From<DrawError> for ConsumerError {
    fn from(err: DrawError) -> (r: Self) {
        ConsumerError::Draw(err)
    }
}

impl vstd::std_specs::convert::FromSpecImpl<DrawError> for ConsumerError {
    open spec fn obeys_from_spec() -> bool {
        true
    }

    open spec fn from_spec(v: DrawError) -> Self {
        ConsumerError::Draw(v)
    }
}

} // verus!
