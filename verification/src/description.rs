//! Human-readable builder descriptions.
//!
//! A builder script may carry its own description: every line opening
//! with the marker `#DESC ` contributes what follows the marker.  The
//! host reads the script file and hands its lines here; this module
//! extracts the description text and renders it as HTML through the
//! markdown renderer.

use vstd::prelude::*;

verus! {

/// Does this line open with the description marker `#DESC `?
pub open spec fn is_desc_line(s: Seq<char>) -> bool {
    &&& s.len() >= 6
    &&& s[0] == '#'
    &&& s[1] == 'D'
    &&& s[2] == 'E'
    &&& s[3] == 'S'
    &&& s[4] == 'C'
    &&& s[5] == ' '
}

/// What one line contributes to the description: whatever follows the
/// marker on a marked line, nothing on any other line.
pub open spec fn desc_of_line(s: Seq<char>) -> Seq<char> {
    if is_desc_line(s) {
        s.subrange(6, s.len() as int)
    } else {
        Seq::<char>::empty()
    }
}

/// The description text of a script: the concatenation, in order, of
/// the contributions of its lines.
pub open spec fn desc_text(lines: Seq<Seq<char>>) -> Seq<char>
    decreases lines.len(),
{
    if lines.len() == 0 {
        Seq::<char>::empty()
    } else {
        desc_text(lines.drop_last()) + desc_of_line(lines.last())
    }
}

/// The views of a vector of lines.
pub open spec fn line_views(lines: Seq<String>) -> Seq<Seq<char>> {
    lines.map_values(|s: String| s@)
}

/// Collect the description text from a script's lines.
pub fn extract_description(lines: &Vec<String>) -> (d: String)
    ensures
        d@ == desc_text(line_views(lines@)),
{
    let mut d = String::new();
    proof {
        assert(line_views(lines@).take(0) =~= Seq::<Seq<char>>::empty());
    }
    let mut i: usize = 0;
    while i < lines.len()
        invariant
            i <= lines@.len(),
            d@ == desc_text(line_views(lines@).take(i as int)),
        decreases lines@.len() - i,
    {
        proof {
            assert(line_views(lines@).take(i + 1).drop_last() =~= line_views(lines@).take(
                i as int,
            ));
            assert(line_views(lines@).take(i + 1).last() == lines@[i as int]@);
        }
        let s = lines[i].as_str();
        let n = s.unicode_len();
        if n >= 6 && s.get_char(0) == '#' && s.get_char(1) == 'D' && s.get_char(2) == 'E'
            && s.get_char(3) == 'S' && s.get_char(4) == 'C' && s.get_char(5) == ' ' {
            d.append(s.substring_char(6, n));
        } else {
            proof {
                assert(d@ =~= d@ + Seq::<char>::empty());
            }
        }
        i = i + 1;
    }
    proof {
        assert(line_views(lines@).take(lines@.len() as int) =~= line_views(lines@));
    }
    d
}

/// What `markdown::to_html` returns for a given text.  The rendering is
/// deterministic — a function of the text alone — but far too large to
/// restate, so the contracts name it.
pub uninterp spec fn html_of(s: Seq<char>) -> Seq<char>;

/// Relies on `markdown::to_html`: renders CommonMark text as HTML.  With
/// the default options it returns for every input, and the result is a
/// function of the input text alone.
#[verifier::external_body]
fn markdown_to_html(s: &String) -> (r: String)
    ensures
        r@ == html_of(s@),
{
    markdown::to_html(s.as_str())
}

/// The rendered description of a builder script: the markdown rendering
/// of the text its `#DESC ` lines carry.
pub fn builder_description(lines: &Vec<String>) -> (r: String)
    ensures
        r@ == html_of(desc_text(line_views(lines@))),
{
    let d = extract_description(lines);
    markdown_to_html(&d)
}

} // verus!
