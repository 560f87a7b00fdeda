//! What a photograph's EXIF fields tell: date, camera, exposure, lens,
//! focal lengths, sensitivity, and the position where it was taken, with a
//! link to that position on a map.

use vstd::prelude::*;
use crate::lens::{choose_lens, chosen_lens, lens_from_option};
use crate::text::{
    can_cut_six_bytes, can_strip_ends, first_six_bytes, same_text, six_byte_prefix, split_on,
    split_text, strip_ends, stripped,
};

verus! {

/// One EXIF field of a photograph, as displayed with its unit: the
/// description of its tag, when the tag has one, and its value.
pub struct ExifField {
    pub description: Option<String>,
    pub value: String,
}

impl View for ExifField {
    type V = (Option<Seq<char>>, Seq<char>);

    open spec fn view(&self) -> (Option<Seq<char>>, Seq<char>) {
        (
            match self.description {
                Some(d) => Some(d@),
                None => None,
            },
            self.value@,
        )
    }
}

/// A latitude or a longitude as displayed, in its four parts: degrees,
/// minutes, seconds and the hemisphere letter.
pub struct Coordinate {
    pub degrees: String,
    pub minutes: String,
    pub seconds: String,
    pub hemisphere: String,
}

/// The parts of a coordinate as texts.
#[verifier::ext_equal]
pub struct CoordinateView {
    pub degrees: Seq<char>,
    pub minutes: Seq<char>,
    pub seconds: Seq<char>,
    pub hemisphere: Seq<char>,
}

impl View for Coordinate {
    type V = CoordinateView;

    open spec fn view(&self) -> CoordinateView {
        CoordinateView {
            degrees: self.degrees@,
            minutes: self.minutes@,
            seconds: self.seconds@,
            hemisphere: self.hemisphere@,
        }
    }
}

/// What the EXIF fields of a photograph tell.
pub struct PhotoFacts {
    pub date: String,
    pub link: String,
    pub camera: String,
    pub exposure: String,
    pub fnumber: String,
    pub focal: String,
    pub focal35: String,
    pub lens: String,
    pub iso: String,
    pub latitude: Option<Coordinate>,
    pub longitude: Option<Coordinate>,
}

/// The facts of a photograph as texts.
#[verifier::ext_equal]
pub struct FactsView {
    pub date: Seq<char>,
    pub link: Seq<char>,
    pub camera: Seq<char>,
    pub exposure: Seq<char>,
    pub fnumber: Seq<char>,
    pub focal: Seq<char>,
    pub focal35: Seq<char>,
    pub lens: Seq<char>,
    pub iso: Seq<char>,
    pub latitude: Option<CoordinateView>,
    pub longitude: Option<CoordinateView>,
}

/// The view of an optional coordinate.
pub open spec fn coordinate_view(c: Option<Coordinate>) -> Option<CoordinateView> {
    match c {
        Some(c) => Some(c@),
        None => None,
    }
}

impl View for PhotoFacts {
    type V = FactsView;

    open spec fn view(&self) -> FactsView {
        FactsView {
            date: self.date@,
            link: self.link@,
            camera: self.camera@,
            exposure: self.exposure@,
            fnumber: self.fnumber@,
            focal: self.focal@,
            focal35: self.focal35@,
            lens: self.lens@,
            iso: self.iso@,
            latitude: coordinate_view(self.latitude),
            longitude: coordinate_view(self.longitude),
        }
    }
}

/// Where the map link of a photograph starts.
pub const MAPS_PLACE: &'static str = "https://www.google.com/maps/place/";

/// The facts before any field is read: empty texts, the bare map link, no
/// position.
pub open spec fn no_facts() -> FactsView {
    FactsView {
        date: Seq::<char>::empty(),
        link: MAPS_PLACE@,
        camera: Seq::<char>::empty(),
        exposure: Seq::<char>::empty(),
        fnumber: Seq::<char>::empty(),
        focal: Seq::<char>::empty(),
        focal35: Seq::<char>::empty(),
        lens: Seq::<char>::empty(),
        iso: Seq::<char>::empty(),
        latitude: None,
        longitude: None,
    }
}

/// The parts of a displayed coordinate such as `1 deg 21 min 29 sec N`: the
/// first, third, fifth and seventh word.
pub open spec fn coordinate_parts(v: Seq<char>) -> CoordinateView {
    let p = split_on(v, ' ');
    CoordinateView { degrees: p[0], minutes: p[2], seconds: p[4], hemisphere: p[6] }
}

/// The piece of the map link that a displayed coordinate adds: degrees, `°`
/// escaped, minutes, `'`, seconds, `"` escaped, hemisphere.
pub open spec fn link_piece(v: Seq<char>) -> Seq<char> {
    let c = coordinate_parts(v);
    c.degrees + "%C2%B0"@ + c.minutes + "'"@ + c.seconds + "%22"@ + c.hemisphere
}

/// The description of a lens model field (two spellings occur).
pub open spec fn is_lens_description(t: Seq<char>) -> bool {
    t == "Lens model"@ || t == "Lens Model"@
}

/// The facts once the field with description `d` and value `v` is read:
/// a latitude or a longitude sets the position and extends the map link
/// (a longitude after a `+`); the date, the exposure, the focal lengths and
/// the sensitivity are the last value read; the camera is the last model read
/// and the F number the first six bytes of the last value read; the lens is
/// the first lens model read that is not empty; the camera and the lens lose
/// the quotes around their displayed value.
pub open spec fn read_field(m: FactsView, d: Option<Seq<char>>, v: Seq<char>) -> FactsView {
    match d {
        None => m,
        Some(t) => if t == "Latitude"@ {
            FactsView { link: m.link + link_piece(v), latitude: Some(coordinate_parts(v)), ..m }
        } else if t == "Longitude"@ {
            FactsView {
                link: m.link + "+"@ + link_piece(v),
                longitude: Some(coordinate_parts(v)),
                ..m
            }
        } else if t == "Date and time of original data generation"@ {
            FactsView { date: v, ..m }
        } else if t == "Model of image input equipment"@ {
            FactsView { camera: stripped(v), ..m }
        } else if t == "Exposure time"@ {
            FactsView { exposure: v, ..m }
        } else if t == "F number"@ {
            FactsView { fnumber: six_byte_prefix(v), ..m }
        } else if t == "Lens focal length"@ {
            FactsView { focal: v, ..m }
        } else if t == "Focal length in 35 mm film"@ {
            FactsView { focal35: v, ..m }
        } else if is_lens_description(t) {
            if m.lens.len() == 0 {
                FactsView { lens: stripped(v), ..m }
            } else {
                m
            }
        } else if t == "Photographic sensitivity"@ {
            FactsView { iso: v, ..m }
        } else {
            m
        },
    }
}

/// Reading the field does not fail: a coordinate has at least seven words, a
/// camera model (or a lens model read while no lens is known) longer than two
/// bytes has at least two characters, and an F number longer than six bytes
/// has a character boundary after its sixth byte.
pub open spec fn field_readable(m: FactsView, d: Option<Seq<char>>, v: Seq<char>) -> bool {
    match d {
        None => true,
        Some(t) => if t == "Latitude"@ || t == "Longitude"@ {
            split_on(v, ' ').len() >= 7
        } else if t == "Date and time of original data generation"@ {
            true
        } else if t == "Model of image input equipment"@ {
            can_strip_ends(v)
        } else if t == "Exposure time"@ {
            true
        } else if t == "F number"@ {
            can_cut_six_bytes(v)
        } else if t == "Lens focal length"@ || t == "Focal length in 35 mm film"@ {
            true
        } else if is_lens_description(t) {
            m.lens.len() == 0 ==> can_strip_ends(v)
        } else {
            true
        },
    }
}

/// The facts that the fields tell, read in order.
pub open spec fn read_all(fields: Seq<(Option<Seq<char>>, Seq<char>)>) -> FactsView
    decreases fields.len(),
{
    if fields.len() == 0 {
        no_facts()
    } else {
        read_field(read_all(fields.drop_last()), fields.last().0, fields.last().1)
    }
}

/// Reading the fields in order never fails.
pub open spec fn all_readable(fields: Seq<(Option<Seq<char>>, Seq<char>)>) -> bool
    decreases fields.len(),
{
    if fields.len() == 0 {
        true
    } else {
        all_readable(fields.drop_last()) && field_readable(
            read_all(fields.drop_last()),
            fields.last().0,
            fields.last().1,
        )
    }
}

proof fn lemma_readable_prefix(fields: Seq<(Option<Seq<char>>, Seq<char>)>, k: int)
    requires
        all_readable(fields),
        0 <= k <= fields.len(),
    ensures
        all_readable(fields.take(k)),
    decreases fields.len(),
{
    if k == fields.len() {
        assert(fields.take(k) =~= fields);
    } else {
        assert(fields.take(k) =~= fields.drop_last().take(k));
        lemma_readable_prefix(fields.drop_last(), k);
    }
}

/// Whatever fields are read, the map link starts with the map address.
pub proof fn lemma_link_starts_at_map(fields: Seq<(Option<Seq<char>>, Seq<char>)>)
    ensures
        MAPS_PLACE@.is_prefix_of(read_all(fields).link),
    decreases fields.len(),
{
    if fields.len() > 0 {
        let m = read_all(fields.drop_last());
        lemma_link_starts_at_map(fields.drop_last());
        let n = read_all(fields);
        assert(m.link.is_prefix_of(n.link)) by {
            assert forall|i: int| 0 <= i < m.link.len() implies n.link[i] == m.link[i] by {
                match fields.last().0 {
                    None => {},
                    Some(t) => {
                        if t == "Latitude"@ {
                            assert(n.link == m.link + link_piece(fields.last().1));
                        } else if t == "Longitude"@ {
                            assert(n.link == m.link + "+"@ + link_piece(fields.last().1));
                            assert((m.link + "+"@ + link_piece(fields.last().1))[i] == m.link[i]);
                        }
                    },
                }
            }
        }
    }
}

/// Once a lens is known, the fields read after it do not change it: the
/// lens of a photograph is the first non-empty lens model among its fields.
pub proof fn lemma_first_lens_stays(fields: Seq<(Option<Seq<char>>, Seq<char>)>, k: int)
    requires
        0 <= k <= fields.len(),
        read_all(fields.take(k)).lens.len() > 0,
    ensures
        read_all(fields).lens == read_all(fields.take(k)).lens,
    decreases fields.len(),
{
    if k == fields.len() {
        assert(fields.take(k) =~= fields);
    } else {
        assert(fields.take(k) =~= fields.drop_last().take(k));
        lemma_first_lens_stays(fields.drop_last(), k);
    }
}

/// The views of a list of fields.
pub open spec fn fields_view(fields: Seq<ExifField>) -> Seq<(Option<Seq<char>>, Seq<char>)> {
    fields.map_values(|f: ExifField| f@)
}

fn coordinate_of(p: &Vec<String>) -> (c: Coordinate)
    requires
        p.len() >= 7,
    ensures
        c@ == (CoordinateView { degrees: p[0]@, minutes: p[2]@, seconds: p[4]@, hemisphere: p[6]@ }),
{
    Coordinate {
        degrees: p[0].clone(),
        minutes: p[2].clone(),
        seconds: p[4].clone(),
        hemisphere: p[6].clone(),
    }
}

fn extend_link(link: &mut String, p: &Vec<String>)
    requires
        p.len() >= 7,
    ensures
        final(link)@ == old(link)@ + (p[0]@ + "%C2%B0"@ + p[2]@ + "'"@ + p[4]@ + "%22"@ + p[6]@),
{
    link.append(p[0].as_str());
    link.append("%C2%B0");
    link.append(p[2].as_str());
    link.append("'");
    link.append(p[4].as_str());
    link.append("%22");
    link.append(p[6].as_str());
}

fn read_one(facts: &mut PhotoFacts, t: &str, v: &str) -> (ok: bool)
    ensures
        ok == field_readable(old(facts)@, Some(t@), v@),
        ok ==> final(facts)@ == read_field(old(facts)@, Some(t@), v@),
{
    let ghost m = facts@;
    let ghost d = Some(t@);
    if same_text(t, "Latitude") {
        let p = split_text(v, ' ');
        if p.len() < 7 {
            return false;
        }
        assert(p@.map_values(|q: String| q@)[0] == p[0]@);
        assert(p@.map_values(|q: String| q@)[2] == p[2]@);
        assert(p@.map_values(|q: String| q@)[4] == p[4]@);
        assert(p@.map_values(|q: String| q@)[6] == p[6]@);
        extend_link(&mut facts.link, &p);
        facts.latitude = Some(coordinate_of(&p));
        assert(facts@ =~= read_field(m, d, v@));
        true
    } else if same_text(t, "Longitude") {
        let p = split_text(v, ' ');
        if p.len() < 7 {
            return false;
        }
        assert(p@.map_values(|q: String| q@)[0] == p[0]@);
        assert(p@.map_values(|q: String| q@)[2] == p[2]@);
        assert(p@.map_values(|q: String| q@)[4] == p[4]@);
        assert(p@.map_values(|q: String| q@)[6] == p[6]@);
        facts.link.append("+");
        extend_link(&mut facts.link, &p);
        facts.longitude = Some(coordinate_of(&p));
        assert(facts@ =~= read_field(m, d, v@));
        true
    } else if same_text(t, "Date and time of original data generation") {
        facts.date = v.to_owned();
        assert(facts@ =~= read_field(m, d, v@));
        true
    } else if same_text(t, "Model of image input equipment") {
        if !can_strip(v) {
            return false;
        }
        facts.camera = strip_ends(v);
        assert(facts@ =~= read_field(m, d, v@));
        true
    } else if same_text(t, "Exposure time") {
        facts.exposure = v.to_owned();
        assert(facts@ =~= read_field(m, d, v@));
        true
    } else if same_text(t, "F number") {
        if !can_cut(v) {
            return false;
        }
        facts.fnumber = first_six_bytes(v);
        assert(facts@ =~= read_field(m, d, v@));
        true
    } else if same_text(t, "Lens focal length") {
        facts.focal = v.to_owned();
        assert(facts@ =~= read_field(m, d, v@));
        true
    } else if same_text(t, "Focal length in 35 mm film") {
        facts.focal35 = v.to_owned();
        assert(facts@ =~= read_field(m, d, v@));
        true
    } else if same_text(t, "Lens model") || same_text(t, "Lens Model") {
        if facts.lens.as_str().unicode_len() == 0 {
            if !can_strip(v) {
                return false;
            }
            facts.lens = strip_ends(v);
        }
        assert(facts@ =~= read_field(m, d, v@));
        true
    } else if same_text(t, "Photographic sensitivity") {
        facts.iso = v.to_owned();
        assert(facts@ =~= read_field(m, d, v@));
        true
    } else {
        true
    }
}

fn can_strip(v: &str) -> (r: bool)
    ensures
        r == can_strip_ends(v@),
{
    !crate::text::has_bytes(v, 3) || v.unicode_len() >= 2
}

fn can_cut(v: &str) -> (r: bool)
    ensures
        r == can_cut_six_bytes(v@),
{
    !crate::text::has_bytes(v, 6) || v.is_char_boundary(6)
}

/// Reads the EXIF fields of a photograph in order (see `read_field`);
/// `None` exactly where reading one of them fails (see `field_readable`).
pub fn read_fields(fields: &Vec<ExifField>) -> (r: Option<PhotoFacts>)
    ensures
        r is None <==> !all_readable(fields_view(fields@)),
        r matches Some(f) ==> f@ == read_all(fields_view(fields@)),
{
    let ghost es = fields_view(fields@);
    let mut facts = PhotoFacts {
        date: String::new(),
        link: String::from_str(MAPS_PLACE),
        camera: String::new(),
        exposure: String::new(),
        fnumber: String::new(),
        focal: String::new(),
        focal35: String::new(),
        lens: String::new(),
        iso: String::new(),
        latitude: None,
        longitude: None,
    };
    assert(facts@ =~= no_facts());
    assert(es.take(0) =~= Seq::<(Option<Seq<char>>, Seq<char>)>::empty());
    let mut i: usize = 0;
    while i < fields.len()
        invariant
            es == fields_view(fields@),
            0 <= i <= fields.len(),
            all_readable(es.take(i as int)),
            facts@ == read_all(es.take(i as int)),
        decreases fields.len() - i,
    {
        let f = &fields[i];
        assert(es[i as int] == f@);
        assert(es.take(i + 1).drop_last() =~= es.take(i as int));
        assert(es.take(i + 1).last() == f@);
        match &f.description {
            None => {},
            Some(t) => {
                if !read_one(&mut facts, t.as_str(), f.value.as_str()) {
                    proof {
                        if all_readable(es) {
                            lemma_readable_prefix(es, i + 1);
                        }
                    }
                    return None;
                }
            },
        }
        i = i + 1;
    }
    assert(es.take(i as int) =~= es);
    Some(facts)
}

/// What is shown of a photograph: what its fields tell, where the camera and
/// the lens named on the command line take precedence over those the fields
/// name (see `chosen_lens`). `None` where reading a field or choosing the
/// lens fails.
pub open spec fn described(
    fields: Seq<(Option<Seq<char>>, Seq<char>)>,
    camera_option: Seq<char>,
    lens_option: Seq<char>,
) -> Option<FactsView> {
    if !all_readable(fields) {
        None
    } else {
        let m = read_all(fields);
        match chosen_lens(m.lens, m.focal, lens_option) {
            None => None,
            Some(l) => Some(
                FactsView {
                    camera: if camera_option.len() > 0 {
                        camera_option
                    } else {
                        m.camera
                    },
                    lens: l,
                    ..m
                },
            ),
        }
    }
}

/// Gathers what is shown of a photograph from its EXIF fields and the
/// camera and lens options of the command line (see `described`).
pub fn describe_photo(fields: &Vec<ExifField>, camera_option: &str, lens_option: &str) -> (r:
    Option<PhotoFacts>)
    ensures
        match r {
            Some(f) => described(fields_view(fields@), camera_option@, lens_option@) == Some(f@),
            None => described(fields_view(fields@), camera_option@, lens_option@) is None,
        },
        r matches Some(f) ==> (camera_option@.len() > 0 ==> f.camera@ == camera_option@),
        r matches Some(f) ==> (lens_from_option(lens_option@, f.focal@).len() > 0 ==> f.lens@
            == lens_from_option(lens_option@, f.focal@)),
{
    let mut facts = match read_fields(fields) {
        Some(f) => f,
        None => {
            return None;
        },
    };
    let ghost m = facts@;
    if camera_option.unicode_len() > 0 {
        facts.camera = camera_option.to_owned();
    }
    let lens = match choose_lens(facts.lens.as_str(), facts.focal.as_str(), lens_option) {
        Some(l) => l,
        None => {
            return None;
        },
    };
    facts.lens = lens;
    assert(described(fields_view(fields@), camera_option@, lens_option@) =~~= Some(facts@));
    Some(facts)
}

} // verus!
