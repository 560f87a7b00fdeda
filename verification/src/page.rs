//! The HTML of the gallery page: its header, one block per photograph, and
//! its footer; and which files are photographs.

use vstd::prelude::*;
use crate::photo::PhotoFacts;
use crate::text::{decimal, decimal_text, lowercase_equals, lowercase_matches};

verus! {

/// The page up to the title.
pub const HEADER_TOP: &'static str = "<!DOCTYPE html>\n<html lang=\"fr\">\n  <head>\n    <meta charset=\"utf-8\">\n    <link rel=\"stylesheet\" type=\"text/css\" href=\"/mystyle.css\" >\n    <link rel=\"shortcut icon\" type=\"image/x-icon\" href=\"/favicon.bmp\" >\n\n    <title>Photo-lovers\n    </title>\n    <meta name=\"Category\" content=\"Photographie\" >\n    <meta name=\"Description\" content=\"Tout sur la photographie numérique\" >\n    <meta name=\"Author\" content=\"Jean-Marc Alliot\" >\n    <meta name=\"Keywords\" content=\"Photographie,Numérique\" >\n  </head>\n\n\n  <body>\n\n    <nav class=\"sidenav\">\n      <iframe class=\"sidenav\" src=\"/toc.html\">\n      </iframe>\n    </nav>\n\n\n    <div class=\"main\">\n      <!--#include virtual=\"/header.shtml\" -->\n\n<h1>\n";

/// The page from the end of the title to the photographs.
pub const HEADER_BOTTOM: &'static str = "\n</h1>\n<p>\nEn cliquant sur une image, elle s'ouvrira dans un autre onglet en 3000x2000.\n<br/>\nToutes les images sont copyrightees (voir le bas de page) et marquees par steganographie.\n</p>\n";

/// The end of the page.
pub const FOOTER: &'static str = "\n       <!--#include virtual=\"/footer.shtml\" -->\n    </div>\n\n\n  </body>\n</html>\n\n";

/// The start of the page, with the title `name`.
pub fn header_html(name: &str) -> (r: String)
    ensures
        r@ == HEADER_TOP@ + name@ + HEADER_BOTTOM@,
{
    let mut r = String::from_str(HEADER_TOP);
    r.append(name);
    r.append(HEADER_BOTTOM);
    r
}

/// The end of the page.
pub fn footer_html() -> (r: String)
    ensures
        r@ == FOOTER@,
{
    String::from_str(FOOTER)
}

/// A file is a photograph to show: its extension, turned to ASCII lowercase,
/// is the wanted one; a file without an extension (or with one that is not
/// valid Unicode) is not.
pub open spec fn wanted_file(extension: Option<Seq<char>>, wanted: Seq<char>) -> bool {
    match extension {
        Some(e) => lowercase_matches(e, wanted),
        None => false,
    }
}

/// Whether a file with the given extension is a photograph to show.
pub fn is_wanted_file(extension: Option<&str>, wanted: &str) -> (r: bool)
    ensures
        r == wanted_file(
            match extension {
                Some(e) => Some(e@),
                None => None,
            },
            wanted@,
        ),
{
    match extension {
        Some(e) => lowercase_equals(e, wanted),
        None => false,
    }
}

/// The block of the page that shows a photograph: the small image linking
/// to the medium one, the caption, the map link with the position when
/// there is one, then camera, lens, F number, exposure, focal length, its
/// 35 mm equivalent when known, sensitivity and size.
pub open spec fn photo_block(
    path: Seq<char>,
    caption: Seq<char>,
    facts: crate::photo::FactsView,
    position: Option<(Seq<char>, Seq<char>)>,
    width: u32,
    height: u32,
) -> Seq<char> {
    "<p class=\"center\">\n<a href=\"medium/"@ + path + "\" target=\"_blank\">\n<img src=\"small/"@
        + path + "\" alt=\"\" />\n</a>\n<br/>\n"@ + caption + "\n"@ + match position {
        Some((lat, lon)) => "<a href=\""@ + facts.link + "\" target=\"_blank\">\nlat="@ + lat
            + ", lon="@ + lon + "\n</a>\n<br/>\n"@,
        None => Seq::<char>::empty(),
    } + facts.camera + ", "@ + facts.lens + ", "@ + facts.fnumber + ", "@ + facts.exposure
        + ", "@ + facts.focal + if facts.focal35.len() > 0 {
        " (35mm equ: "@ + facts.focal35 + ")"@
    } else {
        Seq::<char>::empty()
    } + ", "@ + facts.iso + " ISO, "@ + decimal_text(width as nat) + "x"@ + decimal_text(
        height as nat,
    ) + "\n</p>\n"@
}

/// The block of a photograph ends with its size: the width, `x`, the height,
/// in that order, then the end of the paragraph.
pub proof fn lemma_block_ends_with_width_then_height(
    path: Seq<char>,
    caption: Seq<char>,
    facts: crate::photo::FactsView,
    position: Option<(Seq<char>, Seq<char>)>,
    width: u32,
    height: u32,
)
    ensures
        ({
            let tail = decimal_text(width as nat) + "x"@ + decimal_text(height as nat)
                + "\n</p>\n"@;
            let b = photo_block(path, caption, facts, position, width, height);
            b.len() >= tail.len() && b.skip(b.len() - tail.len()) == tail
        }),
{
    let tail = decimal_text(width as nat) + "x"@ + decimal_text(height as nat) + "\n</p>\n"@;
    let b = photo_block(path, caption, facts, position, width, height);
    let head = "<p class=\"center\">\n<a href=\"medium/"@ + path + "\" target=\"_blank\">\n<img src=\"small/"@
        + path + "\" alt=\"\" />\n</a>\n<br/>\n"@ + caption + "\n"@ + match position {
        Some((lat, lon)) => "<a href=\""@ + facts.link + "\" target=\"_blank\">\nlat="@ + lat
            + ", lon="@ + lon + "\n</a>\n<br/>\n"@,
        None => Seq::<char>::empty(),
    } + facts.camera + ", "@ + facts.lens + ", "@ + facts.fnumber + ", "@ + facts.exposure
        + ", "@ + facts.focal + if facts.focal35.len() > 0 {
        " (35mm equ: "@ + facts.focal35 + ")"@
    } else {
        Seq::<char>::empty()
    } + ", "@ + facts.iso + " ISO, "@;
    assert(b =~= head + tail);
    assert(b.skip(b.len() - tail.len()) =~= tail);
}

/// Writes the block of the page that shows a photograph (see `photo_block`);
/// `position` holds the latitude and the longitude as they are to be shown.
pub fn photo_html(
    path: &str,
    caption: &str,
    facts: &PhotoFacts,
    position: Option<(&str, &str)>,
    width: u32,
    height: u32,
) -> (r: String)
    ensures
        r@ == photo_block(
            path@,
            caption@,
            facts@,
            match position {
                Some((lat, lon)) => Some((lat@, lon@)),
                None => None,
            },
            width,
            height,
        ),
{
    let mut r = String::from_str("<p class=\"center\">\n<a href=\"medium/");
    r.append(path);
    r.append("\" target=\"_blank\">\n<img src=\"small/");
    r.append(path);
    r.append("\" alt=\"\" />\n</a>\n<br/>\n");
    r.append(caption);
    r.append("\n");
    let ghost head = r@;
    match position {
        Some((lat, lon)) => {
            r.append("<a href=\"");
            r.append(facts.link.as_str());
            r.append("\" target=\"_blank\">\nlat=");
            r.append(lat);
            r.append(", lon=");
            r.append(lon);
            r.append("\n</a>\n<br/>\n");
        },
        None => {
            assert(r@ =~= head + Seq::<char>::empty());
        },
    }
    let ghost with_position = r@;
    r.append(facts.camera.as_str());
    r.append(", ");
    r.append(facts.lens.as_str());
    r.append(", ");
    r.append(facts.fnumber.as_str());
    r.append(", ");
    r.append(facts.exposure.as_str());
    r.append(", ");
    r.append(facts.focal.as_str());
    let ghost with_focal = r@;
    if facts.focal35.as_str().unicode_len() > 0 {
        r.append(" (35mm equ: ");
        r.append(facts.focal35.as_str());
        r.append(")");
    } else {
        assert(r@ =~= with_focal + Seq::<char>::empty());
    }
    r.append(", ");
    r.append(facts.iso.as_str());
    r.append(" ISO, ");
    r.append(decimal(width).as_str());
    r.append("x");
    r.append(decimal(height).as_str());
    r.append("\n</p>\n");
    assert(r@ =~= photo_block(
        path@,
        caption@,
        facts@,
        match position {
            Some((lat, lon)) => Some((lat@, lon@)),
            None => None,
        },
        width,
        height,
    ));
    r
}

} // verus!
