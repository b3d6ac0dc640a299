//! Column formatting: fit a text into a fixed display width, padding with
//! trailing spaces or truncating with a trailing ellipsis.

use vstd::prelude::*;
use vstd::string::{StrSliceExecFns, StringExecFns};
use ellipse::Ellipse;

verus! {

/// `n` spaces.
pub open spec fn spaces(n: nat) -> Seq<char> {
    Seq::new(n, |i: int| ' ')
}

/// `n` dots.
pub open spec fn dots(n: nat) -> Seq<char> {
    Seq::new(n, |i: int| '.')
}

/// A text fitted to a column of `width` characters: returned unchanged when
/// it is exactly as long, padded with trailing spaces when shorter; longer
/// text becomes `width` dots for widths up to three, and its first
/// `width - 3` characters followed by "..." otherwise.
pub open spec fn column_text(t: Seq<char>, width: nat) -> Seq<char> {
    if t.len() == width {
        t
    } else if t.len() < width {
        t + spaces((width - t.len()) as nat)
    } else if width <= 3 {
        dots(width)
    } else {
        t.subrange(0, width as int - 3) + dots(3)
    }
}

/// Relies on ellipse's `truncate_ellipse`: it keeps the first `keep` extended
/// grapheme clusters of the text and appends "..." when there are more than
/// `keep` clusters. In ASCII text that holds no carriage return, every
/// character is a cluster of its own.
#[verifier::external_body]
fn truncate_ellipse_ascii(text: &str, keep: usize) -> (r: String)
    requires
        text.is_ascii(),
        forall|i: int| 0 <= i < text@.len() ==> text@[i] != '\r',
        1 <= keep < text@.len(),
    ensures
        r@ == text@.subrange(0, keep as int) + dots(3),
{
    text.truncate_ellipse(keep).into_owned()
}

/// Whether the text is ASCII and free of carriage returns, so that character
/// counts and grapheme-cluster counts agree.
fn ascii_without_cr(text: &str) -> (r: bool)
    ensures
        r == (text.is_ascii() && forall|i: int| 0 <= i < text@.len() ==> text@[i] != '\r'),
{
    if !text.is_ascii() {
        return false;
    }
    let n = text.unicode_len();
    let mut i: usize = 0;
    while i < n
        invariant
            i <= n,
            n == text@.len(),
            forall|j: int| 0 <= j < i ==> text@[j] != '\r',
        decreases n - i,
    {
        if text.get_char(i) == '\r' {
            return false;
        }
        i = i + 1;
    }
    true
}

/// Fits `text` into a column of exactly `width` characters, padding short
/// text with trailing spaces and truncating long text with an ellipsis.
pub fn get_column_string(text: &str, width: usize) -> (r: String)
    ensures
        r@ == column_text(text@, width as nat),
{
    let len = text.unicode_len();
    if len == width {
        text.to_owned()
    } else if len < width {
        let pad = width - len;
        let mut s = text.to_owned();
        let mut i: usize = 0;
        while i < pad
            invariant
                i <= pad,
                pad == width - text@.len(),
                text@.len() < width,
                s@ == text@ + spaces(i as nat),
            decreases pad - i,
        {
            s.append(" ");
            proof {
                reveal_strlit(" ");
                assert(s@ =~= text@ + spaces(i as nat + 1));
            }
            i = i + 1;
        }
        proof {
            assert(s@ =~= column_text(text@, width as nat));
        }
        s
    } else {
        if width == 0 {
            let r = String::new();
            proof {
                assert(r@ =~= dots(0));
            }
            r
        } else if width == 1 {
            let r = ".".to_owned();
            proof {
                reveal_strlit(".");
                assert(r@ =~= dots(1));
            }
            r
        } else if width == 2 {
            let r = "..".to_owned();
            proof {
                reveal_strlit("..");
                assert(r@ =~= dots(2));
            }
            r
        } else if width == 3 {
            let r = "...".to_owned();
            proof {
                reveal_strlit("...");
                assert(r@ =~= dots(3));
            }
            r
        } else {
            let keep = width - 3;
            if ascii_without_cr(text) {
                truncate_ellipse_ascii(text, keep)
            } else {
                let mut s = text.substring_char(0, keep).to_owned();
                s.append("...");
                proof {
                    reveal_strlit("...");
                    assert(s@ =~= text@.subrange(0, keep as int) + dots(3));
                }
                s
            }
        }
    }
}

} // verus!
