use vstd::prelude::*;
use vstd::string::*;
use core::ops::Range;

use crate::lookup::{first_index, first_index_in, lemma_first_index_stable, names_distinct};
use crate::module_name::{module_file_name, ModuleName, Platform};
use crate::signature::{
    is_signature_text, regex_accepts, regex_capture_spans, signature_new_succeeds, signature_pattern, Signature, SignatureError,
    SignatureModel,
};

verus! {

// ---------------------------------------------------------------------------
// Module images: the bytes of a loaded module, where it is loaded.
// ---------------------------------------------------------------------------

/// The memory of one loaded module, as handed over by the caller.
pub struct ModuleImage<'a> {
    pub file_name: String,
    pub base: usize,
    pub memory: &'a [u8],
}

/// A module image in the model.
pub struct ImageView {
    pub file_name: Seq<char>,
    pub base: usize,
    pub memory: Seq<u8>,
}

impl<'a> View for ModuleImage<'a> {
    type V = ImageView;

    open spec fn view(&self) -> ImageView {
        ImageView { file_name: self.file_name@, base: self.base, memory: self.memory@ }
    }
}

/// A real module never wraps around the end of the address space.
pub open spec fn image_fits(image: ImageView) -> bool {
    image.base + image.memory.len() <= usize::MAX
}

pub open spec fn images_view(images: Seq<ModuleImage>) -> Seq<ImageView> {
    images.map_values(|m: ModuleImage| m@)
}

pub open spec fn image_names(images: Seq<ImageView>) -> Seq<Seq<char>> {
    images.map_values(|m: ImageView| m.file_name)
}

pub open spec fn images_fit(images: Seq<ImageView>) -> bool {
    forall|i: int| 0 <= i < images.len() ==> image_fits(#[trigger] images[i])
}

// ---------------------------------------------------------------------------
// Signature tables.
// ---------------------------------------------------------------------------

/// A signature under the name by which areas refer to it.
pub struct NamedSignature {
    pub name: String,
    pub signature: Signature,
}

/// The named signatures that the areas refer to.
pub struct Signatures {
    signatures: Vec<NamedSignature>,
}

pub open spec fn signature_names(sigs: Seq<(Seq<char>, SignatureModel)>) -> Seq<Seq<char>> {
    sigs.map_values(|e: (Seq<char>, SignatureModel)| e.0)
}

impl View for Signatures {
    type V = Seq<(Seq<char>, SignatureModel)>;

    closed spec fn view(&self) -> Seq<(Seq<char>, SignatureModel)> {
        self.signatures@.map_values(|e: NamedSignature| (e.name@, e.signature@))
    }
}

/// The fixed signature table: names and texts, all in the client module.
pub open spec fn signature_table() -> Seq<(Seq<char>, Seq<char>)> {
    seq![
        ("on_ground_dec"@, "FF 0D ?? ?? ?? ?? E8 ?? ?? ?? ?? 5E 5D"@),
        ("on_ground_inc"@, "FF 05 ?? ?? ?? ?? 85 DB 74 0D 8B 13"@),
        ("do_jump_update"@, "89 0D ?? ?? ?? ?? 8B 0D ?? ?? ?? ?? F6 C1 03 74 03 83 CE 08"@),
    ]
}

/// The model of the fixed signature table once every text has compiled.
pub open spec fn signature_table_model() -> Seq<(Seq<char>, SignatureModel)> {
    signature_table().map_values(
        |e: (Seq<char>, Seq<char>)|
            (e.0, SignatureModel { module: ModuleName::Client, pattern: signature_pattern(e.1) }),
    )
}

/// Position of the first text of the fixed table that does not compile.
pub open spec fn first_failing_signature() -> int {
    if !signature_new_succeeds(signature_table()[0].1) {
        0
    } else if !signature_new_succeeds(signature_table()[1].1) {
        1
    } else {
        2
    }
}

/// The fixed table names its signatures distinctly.
proof fn lemma_signature_table_names_distinct()
    ensures
        names_distinct(signature_names(signature_table_model())),
{
    reveal_strlit("on_ground_dec");
    reveal_strlit("on_ground_inc");
    reveal_strlit("do_jump_update");
    let names = signature_names(signature_table_model());
    assert(names[0] == "on_ground_dec"@ && names[1] == "on_ground_inc"@ && names[2]
        == "do_jump_update"@);
    assert(names[0][10] != names[1][10]);
    assert(names[0].len() != names[2].len());
    assert(names[1].len() != names[2].len());
}

impl Signatures {
    /// Like a map, the table holds each name at most once.
    #[verifier::type_invariant]
    spec fn names_unique(self) -> bool {
        names_distinct(signature_names(self@))
    }

    /// Builds the fixed table of named signatures. Fails with the error of
    /// the first text, in table order, that does not compile.
    pub fn new() -> (res: Result<Signatures, SignatureError>)
        ensures
            res is Ok <==> (forall|i: int|
                0 <= i < 3 ==> signature_new_succeeds(#[trigger] signature_table()[i].1)),
            res matches Ok(s) ==> s@ == signature_table_model() && names_distinct(
                signature_names(s@),
            ),
            res matches Err(SignatureError::WrongFormat(t)) ==> t@ == signature_table()[first_failing_signature()].1
                && !is_signature_text(signature_table()[first_failing_signature()].1),
            res matches Err(SignatureError::InvalidPattern(_)) ==> is_signature_text(
                signature_table()[first_failing_signature()].1,
            ) && !regex_accepts(signature_pattern(signature_table()[first_failing_signature()].1)),
            res is Err ==> !signature_new_succeeds(signature_table()[first_failing_signature()].1),
    {
        let t0 = "FF 0D ?? ?? ?? ?? E8 ?? ?? ?? ?? 5E 5D";
        let t1 = "FF 05 ?? ?? ?? ?? 85 DB 74 0D 8B 13";
        let t2 = "89 0D ?? ?? ?? ?? 8B 0D ?? ?? ?? ?? F6 C1 03 74 03 83 CE 08";
        let n0 = "on_ground_dec";
        let n1 = "on_ground_inc";
        let n2 = "do_jump_update";
        assert(signature_table()[0] == (n0@, t0@));
        assert(signature_table()[1] == (n1@, t1@));
        assert(signature_table()[2] == (n2@, t2@));
        let s0 = match Signature::new(ModuleName::Client, t0) {
            Ok(s) => s,
            Err(e) => {
                assert(!signature_new_succeeds(signature_table()[0].1));
                return Err(e);
            },
        };
        let s1 = match Signature::new(ModuleName::Client, t1) {
            Ok(s) => s,
            Err(e) => {
                assert(!signature_new_succeeds(signature_table()[1].1));
                return Err(e);
            },
        };
        let s2 = match Signature::new(ModuleName::Client, t2) {
            Ok(s) => s,
            Err(e) => {
                assert(!signature_new_succeeds(signature_table()[2].1));
                return Err(e);
            },
        };
        let mut v: Vec<NamedSignature> = Vec::new();
        v.push(NamedSignature { name: String::from_str(n0), signature: s0 });
        v.push(NamedSignature { name: String::from_str(n1), signature: s1 });
        v.push(NamedSignature { name: String::from_str(n2), signature: s2 });
        proof {
            lemma_signature_table_names_distinct();
            assert(v@.map_values(|e: NamedSignature| (e.name@, e.signature@)) =~= signature_table_model());
        }
        let res = Signatures { signatures: v };
        assert(res@ =~= signature_table_model());
        assert forall|i: int| 0 <= i < 3 implies signature_new_succeeds(
            #[trigger] signature_table()[i].1,
        ) by {}
        Ok(res)
    }

    /// A table of the given named signatures, in the given order.
    pub fn from_vec(signatures: Vec<NamedSignature>) -> (res: Signatures)
        requires
            names_distinct(signature_names(signatures@.map_values(|e: NamedSignature| (e.name@, e.signature@)))),
        ensures
            res@ == signatures@.map_values(|e: NamedSignature| (e.name@, e.signature@)),
            names_distinct(signature_names(res@)),
    {
        Signatures { signatures }
    }

    /// Whether some signature has this name.
    pub fn contains_name(&self, name: &String) -> (b: bool)
        ensures
            b == first_index(signature_names(self@), name@) is Some,
    {
        self.find(name).is_some()
    }

    /// The first signature with this name.
    pub fn get(&self, name: &String) -> (res: Option<&Signature>)
        ensures
            match res {
                Some(sig) => first_index(signature_names(self@), name@) matches Some(i) && sig@
                    == self@[i].1,
                None => first_index(signature_names(self@), name@) is None,
            },
    {
        match self.find(name) {
            Some(i) => {
                assert(self@[i as int].1 == self.signatures@[i as int].signature@);
                Some(&self.signatures[i].signature)
            },
            None => None,
        }
    }

    /// The position of the first signature with this name.
    fn find(&self, name: &String) -> (res: Option<usize>)
        ensures
            match res {
                Some(i) => first_index(signature_names(self@), name@) == Some(i as int),
                None => first_index(signature_names(self@), name@) is None,
            },
            res matches Some(i) ==> i < self@.len(),
    {
        let ghost names = signature_names(self@);
        let n = self.signatures.len();
        let mut i: usize = 0;
        while i < n
            invariant
                n == self.signatures@.len(),
                names == signature_names(self@),
                names.len() == n,
                i <= n,
                first_index_in(names, name@, i as nat) is None,
            decreases n - i,
        {
            assert(names[i as int] == self.signatures@[i as int].name@);
            if self.signatures[i].name == *name {
                assert(first_index_in(names, name@, (i + 1) as nat) == Some(i as int));
                proof {
                    lemma_first_index_stable(names, name@, (i + 1) as nat, n as nat);
                }
                return Some(i);
            }
            i = i + 1;
        }
        None
    }
}

// ---------------------------------------------------------------------------
// Signature areas: which bytes of a signature match are of interest.
// ---------------------------------------------------------------------------

/// The part of a signature match that an area selects.
pub enum SignatureAreaType {
    /// Index of a capture group; group `k >= 1` is the `k`-th run of
    /// wildcards in the signature text.
    CaptureGroupIndex(usize),
    /// Range of bytes within the whole match.
    Range(Range<usize>),
}

/// A signature, by name, and the part of its match an area is interested in.
pub struct SignatureArea {
    pub signature_name: String,
    pub area: SignatureAreaType,
}

/// An area in the model.
pub struct AreaView {
    pub signature_name: Seq<char>,
    pub area: SignatureAreaType,
}

impl View for SignatureArea {
    type V = AreaView;

    open spec fn view(&self) -> AreaView {
        AreaView { signature_name: self.signature_name@, area: self.area }
    }
}

impl SignatureArea {
    pub fn new(signature_name: String, area: SignatureAreaType) -> (res: Self)
        ensures
            res.signature_name == signature_name,
            res.area == area,
    {
        Self { signature_name, area }
    }
}

/// An area under the name by which memory variables refer to it.
pub struct NamedArea {
    pub description: String,
    pub area: SignatureArea,
}

/// The named areas that memory variables are read from.
pub struct SignatureAreas {
    areas: Vec<NamedArea>,
}

pub open spec fn area_names(areas: Seq<(Seq<char>, AreaView)>) -> Seq<Seq<char>> {
    areas.map_values(|e: (Seq<char>, AreaView)| e.0)
}

impl View for SignatureAreas {
    type V = Seq<(Seq<char>, AreaView)>;

    closed spec fn view(&self) -> Seq<(Seq<char>, AreaView)> {
        self.areas@.map_values(|e: NamedArea| (e.description@, e.area@))
    }
}

/// An area refers to a signature that the table does not hold.
#[derive(Debug)]
pub struct MissingSignature {
    pub signature_name: String,
    pub area_description: String,
}

/// The fixed area table: (description, signature name, selected part).
pub open spec fn area_table() -> Seq<(Seq<char>, AreaView)> {
    seq![
        ("on_ground_op_dec"@, AreaView { signature_name: "on_ground_dec"@, area: SignatureAreaType::Range(Range { start: 0, end: 6 }) }),
        ("on_ground_op_inc"@, AreaView { signature_name: "on_ground_inc"@, area: SignatureAreaType::Range(Range { start: 0, end: 6 }) }),
        ("on_ground"@, AreaView { signature_name: "on_ground_dec"@, area: SignatureAreaType::CaptureGroupIndex(1) }),
        ("do_jump"@, AreaView { signature_name: "do_jump_update"@, area: SignatureAreaType::CaptureGroupIndex(1) }),
    ]
}

/// Every area of `areas` refers to a signature of `sigs`.
pub open spec fn all_referenced(
    areas: Seq<(Seq<char>, AreaView)>,
    sigs: Seq<(Seq<char>, SignatureModel)>,
) -> bool {
    forall|i: int|
        0 <= i < areas.len() ==> first_index(
            signature_names(sigs),
            (#[trigger] areas[i]).1.signature_name,
        ) is Some
}

/// `m` names the first area of `areas`, in order, whose signature `sigs`
/// does not hold.
pub open spec fn is_first_missing(
    areas: Seq<(Seq<char>, AreaView)>,
    sigs: Seq<(Seq<char>, SignatureModel)>,
    m: MissingSignature,
) -> bool {
    exists|i: int|
        0 <= i < areas.len() && first_index(
            signature_names(sigs),
            (#[trigger] areas[i]).1.signature_name,
        ) is None && m.signature_name@ == areas[i].1.signature_name && m.area_description@
            == areas[i].0 && forall|j: int|
            0 <= j < i ==> first_index(signature_names(sigs), (#[trigger] areas[j]).1.signature_name)
                is Some
}

/// The fixed area table describes its areas distinctly.
proof fn lemma_area_table_names_distinct()
    ensures
        names_distinct(area_names(area_table())),
{
    reveal_strlit("on_ground_op_dec");
    reveal_strlit("on_ground_op_inc");
    reveal_strlit("on_ground");
    reveal_strlit("do_jump");
    let names = area_names(area_table());
    assert(names[0] == "on_ground_op_dec"@ && names[1] == "on_ground_op_inc"@ && names[2]
        == "on_ground"@ && names[3] == "do_jump"@);
    assert(names[0][13] != names[1][13]);
    assert(names[0].len() != names[2].len() && names[0].len() != names[3].len());
    assert(names[1].len() != names[2].len() && names[1].len() != names[3].len());
    assert(names[2].len() != names[3].len());
}

impl SignatureAreas {
    /// Like a map, the table holds each description at most once.
    #[verifier::type_invariant]
    spec fn descriptions_unique(self) -> bool {
        names_distinct(area_names(self@))
    }

    /// Builds the fixed area table and checks that every area refers to a
    /// signature of `signatures`.
    pub fn new(signatures: &Signatures) -> (res: Result<Self, MissingSignature>)
        ensures
            res is Ok <==> all_referenced(area_table(), signatures@),
            res matches Ok(a) ==> a@ == area_table() && names_distinct(area_names(a@)),
            res matches Err(m) ==> is_first_missing(area_table(), signatures@, m),
    {
        let mut v: Vec<NamedArea> = Vec::new();
        v.push(
            NamedArea {
                description: String::from_str("on_ground_op_dec"),
                area: SignatureArea::new(
                    String::from_str("on_ground_dec"),
                    SignatureAreaType::Range(Range { start: 0, end: 6 }),
                ),
            },
        );
        v.push(
            NamedArea {
                description: String::from_str("on_ground_op_inc"),
                area: SignatureArea::new(
                    String::from_str("on_ground_inc"),
                    SignatureAreaType::Range(Range { start: 0, end: 6 }),
                ),
            },
        );
        v.push(
            NamedArea {
                description: String::from_str("on_ground"),
                area: SignatureArea::new(
                    String::from_str("on_ground_dec"),
                    SignatureAreaType::CaptureGroupIndex(1),
                ),
            },
        );
        v.push(
            NamedArea {
                description: String::from_str("do_jump"),
                area: SignatureArea::new(
                    String::from_str("do_jump_update"),
                    SignatureAreaType::CaptureGroupIndex(1),
                ),
            },
        );
        proof {
            lemma_area_table_names_distinct();
            assert(v@.map_values(|e: NamedArea| (e.description@, e.area@)) =~= area_table());
        }
        let result = Self { areas: v };
        assert(result@ =~= area_table());
        result.check_referenced_signatures(signatures)?;
        Ok(result)
    }

    /// A table of the given named areas, in the given order.
    pub fn from_vec(areas: Vec<NamedArea>) -> (res: SignatureAreas)
        requires
            names_distinct(area_names(areas@.map_values(|e: NamedArea| (e.description@, e.area@)))),
        ensures
            res@ == areas@.map_values(|e: NamedArea| (e.description@, e.area@)),
            names_distinct(area_names(res@)),
    {
        SignatureAreas { areas }
    }

    /// Checks that every area refers to a signature of `signatures`; if not,
    /// names the first area, in table order, whose signature is missing.
    pub fn check_referenced_signatures(&self, signatures: &Signatures) -> (res: Result<(), MissingSignature>)
        ensures
            res is Ok <==> all_referenced(self@, signatures@),
            res matches Err(m) ==> is_first_missing(self@, signatures@, m),
    {
        let n = self.areas.len();
        let mut i: usize = 0;
        while i < n
            invariant
                n == self.areas@.len(),
                n == self@.len(),
                i <= n,
                forall|j: int|
                    0 <= j < i ==> first_index(
                        signature_names(signatures@),
                        (#[trigger] self@[j]).1.signature_name,
                    ) is Some,
            decreases n - i,
        {
            let entry = &self.areas[i];
            assert(self@[i as int] == (entry.description@, entry.area@));
            if !signatures.contains_name(&entry.area.signature_name) {
                return Err(
                    MissingSignature {
                        signature_name: entry.area.signature_name.clone(),
                        area_description: entry.description.clone(),
                    },
                );
            }
            i = i + 1;
        }
        Ok(())
    }

    /// The first area with this description.
    pub fn get(&self, description: &String) -> (res: Option<&SignatureArea>)
        ensures
            match res {
                Some(a) => first_index(area_names(self@), description@) matches Some(i) && a@
                    == self@[i].1,
                None => first_index(area_names(self@), description@) is None,
            },
    {
        match self.find(description) {
            Some(i) => {
                assert(self@[i as int].1 == self.areas@[i as int].area@);
                Some(&self.areas[i].area)
            },
            None => None,
        }
    }

    /// The position of the first area with this description.
    fn find(&self, description: &String) -> (res: Option<usize>)
        ensures
            match res {
                Some(i) => first_index(area_names(self@), description@) == Some(i as int),
                None => first_index(area_names(self@), description@) is None,
            },
            res matches Some(i) ==> i < self@.len(),
    {
        let ghost names = area_names(self@);
        let n = self.areas.len();
        let mut i: usize = 0;
        while i < n
            invariant
                n == self.areas@.len(),
                names == area_names(self@),
                names.len() == n,
                i <= n,
                first_index_in(names, description@, i as nat) is None,
            decreases n - i,
        {
            assert(names[i as int] == self.areas@[i as int].description@);
            if self.areas[i].description == *description {
                assert(first_index_in(names, description@, (i + 1) as nat) == Some(i as int));
                proof {
                    lemma_first_index_stable(names, description@, (i + 1) as nat, n as nat);
                }
                return Some(i);
            }
            i = i + 1;
        }
        None
    }
}

// ---------------------------------------------------------------------------
// Scanning module memory for a signature.
// ---------------------------------------------------------------------------

/// Where the area of interest of a signature match lies: the index of the
/// module image and the byte range within that image.
#[derive(Clone, Copy, Debug, PartialEq, Eq)]
pub struct ScanHit {
    pub image: usize,
    pub start: usize,
    pub end: usize,
}

/// Why scanning for a signature area failed.
#[derive(Clone, Copy, Debug, PartialEq, Eq)]
pub enum ScanError {
    /// The area names a signature the table does not hold.
    SignatureNotFound,
    /// No module image has the signature's module file name.
    ModuleNotFound,
    /// The signature did not match exactly once; the number of matches.
    MatchCount(usize),
    /// The selected capture group does not exist or did not take part.
    CaptureGroupMissing(usize),
    /// The selected byte range does not lie within the whole match.
    RangeNotIndexable(usize, usize),
}

/// The span that an area selects from the capture groups of one match.
pub open spec fn area_span(area: SignatureAreaType, caps: Seq<Option<(usize, usize)>>) -> Result<
    (usize, usize),
    ScanError,
> {
    match area {
        SignatureAreaType::CaptureGroupIndex(i) => if i < caps.len() && caps[i as int] is Some {
            Ok(caps[i as int].unwrap())
        } else {
            Err(ScanError::CaptureGroupMissing(i))
        },
        SignatureAreaType::Range(r) => if caps.len() > 0 && caps[0] is Some {
            let (s, e) = caps[0].unwrap();
            if r.start <= r.end && r.end <= e - s {
                Ok(((s + r.start) as usize, (s + r.end) as usize))
            } else {
                Err(ScanError::RangeNotIndexable(r.start, r.end))
            }
        } else {
            Err(ScanError::CaptureGroupMissing(0))
        },
    }
}

/// A byte-range area selects exactly those bytes of the whole match: for a
/// match spanning `s..e` and a range `r` that fits into it, the hit starts
/// `r.start` bytes into the match and is `r.end - r.start` bytes long; a
/// range that does not fit is refused with its bounds.
pub proof fn law_range_area_selects_within_match(
    start: usize,
    end: usize,
    caps: Seq<Option<(usize, usize)>>,
    s: usize,
    e: usize,
)
    requires
        caps.len() > 0,
        caps[0] == Some((s, e)),
        s <= e,
    ensures
        start <= end && end <= e - s ==> area_span(
            SignatureAreaType::Range(Range { start, end }),
            caps,
        ) == Ok::<(usize, usize), ScanError>(((s + start) as usize, (s + end) as usize)),
        start <= end && end <= e - s ==> match area_span(
            SignatureAreaType::Range(Range { start, end }),
            caps,
        ) {
            Ok((hs, he)) => hs - s == start && he - hs == end - start && s <= hs <= he <= e,
            Err(_) => false,
        },
        !(start <= end && end <= e - s) ==> area_span(
            SignatureAreaType::Range(Range { start, end }),
            caps,
        ) == Err::<(usize, usize), ScanError>(ScanError::RangeNotIndexable(start, end)),
{
}

/// A capture-group area selects exactly that group's span of the match,
/// and is refused when the group does not exist or did not take part.
pub proof fn law_group_area_selects_group(index: usize, caps: Seq<Option<(usize, usize)>>)
    ensures
        index < caps.len() && caps[index as int] is Some ==> area_span(
            SignatureAreaType::CaptureGroupIndex(index),
            caps,
        ) == Ok::<(usize, usize), ScanError>(caps[index as int].unwrap()),
        !(index < caps.len() && caps[index as int] is Some) ==> area_span(
            SignatureAreaType::CaptureGroupIndex(index),
            caps,
        ) == Err::<(usize, usize), ScanError>(ScanError::CaptureGroupMissing(index)),
{
}

/// Scanning in the model: find the area's signature by name, find the
/// first image of the signature's module, require exactly one match of
/// the signature in that image, and select the area from it.
pub open spec fn scan_spec(
    area: AreaView,
    sigs: Seq<(Seq<char>, SignatureModel)>,
    images: Seq<ImageView>,
    platform: Platform,
) -> Result<ScanHit, ScanError> {
    match first_index(signature_names(sigs), area.signature_name) {
        None => Err(ScanError::SignatureNotFound),
        Some(si) => {
            let sig = sigs[si].1;
            match first_index(image_names(images), module_file_name(sig.module, platform)) {
                None => Err(ScanError::ModuleNotFound),
                Some(ii) => {
                    let matches = regex_capture_spans(sig.pattern, images[ii].memory);
                    if matches.len() != 1 {
                        Err(ScanError::MatchCount(matches.len() as usize))
                    } else {
                        match area_span(area.area, matches[0]) {
                            Ok((s, e)) => Ok(ScanHit { image: ii as usize, start: s, end: e }),
                            Err(err) => Err(err),
                        }
                    }
                },
            }
        },
    }
}

/// The position of the first image with this file name.
fn find_image(images: &[ModuleImage], name: &String) -> (res: Option<usize>)
    ensures
        match res {
            Some(i) => first_index(image_names(images_view(images@)), name@) == Some(i as int),
            None => first_index(image_names(images_view(images@)), name@) is None,
        },
        res matches Some(i) ==> i < images@.len(),
{
    let ghost names = image_names(images_view(images@));
    let n = images.len();
    let mut i: usize = 0;
    while i < n
        invariant
            n == images@.len(),
            names == image_names(images_view(images@)),
            names.len() == n,
            i <= n,
            first_index_in(names, name@, i as nat) is None,
        decreases n - i,
    {
        assert(names[i as int] == images@[i as int].file_name@);
        if images[i].file_name == *name {
            assert(first_index_in(names, name@, (i + 1) as nat) == Some(i as int));
            proof {
                lemma_first_index_stable(names, name@, (i + 1) as nat, n as nat);
            }
            return Some(i);
        }
        i = i + 1;
    }
    None
}

/// Selects the area of interest from the capture spans of one match.
fn select_area(area: &SignatureAreaType, caps: &Vec<Option<(usize, usize)>>, hay_len: usize) -> (res: Result<(usize, usize), ScanError>)
    requires
        caps@.len() > 0,
        forall|j: int|
            0 <= j < caps@.len() ==> match #[trigger] caps@[j] {
                Some((s, e)) => s <= e <= hay_len,
                None => true,
            },
    ensures
        res == area_span(*area, caps@),
        res matches Ok((s, e)) ==> s <= e <= hay_len,
{
    match area {
        SignatureAreaType::CaptureGroupIndex(i) => {
            let i = *i;
            if i < caps.len() {
                match caps[i] {
                    Some(span) => Ok(span),
                    None => Err(ScanError::CaptureGroupMissing(i)),
                }
            } else {
                Err(ScanError::CaptureGroupMissing(i))
            }
        },
        SignatureAreaType::Range(r) => {
            match caps[0] {
                Some((s, e)) => {
                    if r.start <= r.end && r.end <= e - s {
                        Ok((s + r.start, s + r.end))
                    } else {
                        Err(ScanError::RangeNotIndexable(r.start, r.end))
                    }
                },
                None => Err(ScanError::CaptureGroupMissing(0)),
            }
        },
    }
}

/// Searches module memory for signatures.
pub struct SignatureScanner;

impl SignatureScanner {
    /// Finds the area of interest of `signature_area` in the image of its
    /// signature's module: the signature must match that image exactly once.
    pub fn scan_signature(
        signature_area: &SignatureArea,
        signatures: &Signatures,
        images: &[ModuleImage],
        platform: Platform,
    ) -> (res: Result<ScanHit, ScanError>)
        ensures
            res == scan_spec(signature_area@, signatures@, images_view(images@), platform),
            res matches Ok(hit) ==> hit.image < images@.len() && hit.start <= hit.end
                <= images@[hit.image as int].memory@.len(),
    {
        let si = match signatures.find(&signature_area.signature_name) {
            Some(si) => si,
            None => return Err(ScanError::SignatureNotFound),
        };
        let signature = &signatures.signatures[si].signature;
        assert(signatures@[si as int].1 == signature@);
        let module_name = String::from_str(signature.module().file_name(platform));
        let ii = match find_image(images, &module_name) {
            Some(ii) => ii,
            None => return Err(ScanError::ModuleNotFound),
        };
        let image = &images[ii];
        assert(images_view(images@)[ii as int] == image@);
        let matches = signature.captures(image.memory);
        if matches.len() != 1 {
            return Err(ScanError::MatchCount(matches.len()));
        }
        let caps = &matches[0];
        assert(caps@ == regex_capture_spans(signature@.pattern, image.memory@)[0]);
        match select_area(&signature_area.area, caps, image.memory.len()) {
            Ok((s, e)) => Ok(ScanHit { image: ii, start: s, end: e }),
            Err(err) => Err(err),
        }
    }
}

} // verus!
