use vstd::prelude::*;
use vstd::slice::slice_subrange;
use vstd::string::*;

use crate::lookup::{first_index, lemma_first_index_none};
use crate::module_name::Platform;
use crate::scan::{
    all_referenced, area_names, area_table, first_failing_signature, is_first_missing, images_fit, images_view, scan_spec, signature_table,
    signature_table_model, AreaView, ImageView, MissingSignature, ModuleImage, ScanError,
    ScanHit, SignatureAreas, SignatureScanner, Signatures,
};
use crate::signature::{
    is_signature_text, regex_accepts, signature_new_succeeds, signature_pattern, SignatureError,
    SignatureModel,
};

verus! {

// ---------------------------------------------------------------------------
// Little-endian machine words.
// ---------------------------------------------------------------------------

/// The unsigned value of bytes read least significant first.
pub open spec fn le_value(b: Seq<u8>) -> nat
    decreases b.len(),
{
    if b.len() == 0 {
        0
    } else {
        b[0] as nat + 256 * le_value(b.drop_first())
    }
}

/// The number of bytes of an address on this machine.
pub open spec fn address_width() -> nat {
    (usize::BITS / 8) as nat
}

/// `256` to the power `n`.
pub open spec fn pow256(n: nat) -> nat
    decreases n,
{
    if n == 0 {
        1
    } else {
        256 * pow256((n - 1) as nat)
    }
}

proof fn lemma_pow256_monotonic(m: nat, n: nat)
    requires
        m <= n,
    ensures
        pow256(m) <= pow256(n),
    decreases n - m,
{
    if m < n {
        lemma_pow256_monotonic(m, (n - 1) as nat);
    }
}

proof fn lemma_address_range()
    ensures
        pow256(address_width()) == usize::MAX as nat + 1,
{
    reveal_with_fuel(pow256, 9);
    if usize::BITS == 32 {
        assert(address_width() == 4);
        assert(usize::MAX == 0xffff_ffff);
    } else {
        assert(address_width() == 8);
        assert(usize::MAX == 0xffff_ffff_ffff_ffff);
    }
}

/// Reads an address stored little-endian in exactly `address_width()`
/// bytes; `None` when there are more or fewer bytes.
pub fn address_from_le_bytes(bytes: &[u8]) -> (res: Option<usize>)
    ensures
        res is Some <==> bytes@.len() == address_width(),
        res matches Some(v) ==> v as nat == le_value(bytes@),
{
    let width = (usize::BITS / 8) as usize;
    if bytes.len() != width {
        return None;
    }
    let n = bytes.len();
    let mut v: usize = 0;
    let mut i: usize = n;
    proof {
        lemma_address_range();
        assert(bytes@.subrange(n as int, n as int) =~= Seq::<u8>::empty());
    }
    while i > 0
        invariant
            n == bytes@.len(),
            n == address_width(),
            pow256(address_width()) == usize::MAX as nat + 1,
            i <= n,
            v as nat == le_value(bytes@.subrange(i as int, n as int)),
            v < pow256((n - i) as nat),
        decreases i,
    {
        i = i - 1;
        proof {
            let tail = bytes@.subrange(i as int, n as int);
            assert(tail.drop_first() =~= bytes@.subrange(i + 1, n as int));
            assert(pow256((n - i) as nat) == 256 * pow256((n - i - 1) as nat));
            lemma_pow256_monotonic((n - i) as nat, n as nat);
        }
        v = v * 256 + bytes[i] as usize;
    }
    assert(bytes@.subrange(0, n as int) =~= bytes@);
    Some(v)
}

// ---------------------------------------------------------------------------
// Memory variables: where the game keeps the values the features use.
// ---------------------------------------------------------------------------

/// The memory variables, in the order in which they are read.
#[derive(Clone, Copy, Debug, PartialEq, Eq)]
pub enum MemVarField {
    OnGroundOpDec,
    OnGroundOpInc,
    OnGround,
    DoJump,
    DoAttack1,
    EyePos,
    AnglesOpRead,
    Angles,
    LocalplayerBase,
    RadarStructBase,
}

/// The description of the signature area a memory variable is read from.
pub open spec fn field_area_name(field: MemVarField) -> Seq<char> {
    match field {
        MemVarField::OnGroundOpDec => "on_ground_op_dec"@,
        MemVarField::OnGroundOpInc => "on_ground_op_inc"@,
        MemVarField::OnGround => "on_ground"@,
        MemVarField::DoJump => "do_jump"@,
        MemVarField::DoAttack1 => "do_attack_1"@,
        MemVarField::EyePos => "eye_pos"@,
        MemVarField::AnglesOpRead => "angles_op_read"@,
        MemVarField::Angles => "angles"@,
        MemVarField::LocalplayerBase => "localplayer_base"@,
        MemVarField::RadarStructBase => "radar_struct_base"@,
    }
}

/// Code areas are kept as (address, length); the others are addresses
/// stored in the code and read out of it.
pub open spec fn field_is_code(field: MemVarField) -> bool {
    field == MemVarField::OnGroundOpDec || field == MemVarField::OnGroundOpInc || field
        == MemVarField::AnglesOpRead
}

/// All memory variables, in reading order.
pub open spec fn all_fields() -> Seq<MemVarField> {
    seq![
        MemVarField::OnGroundOpDec,
        MemVarField::OnGroundOpInc,
        MemVarField::OnGround,
        MemVarField::DoJump,
        MemVarField::DoAttack1,
        MemVarField::EyePos,
        MemVarField::AnglesOpRead,
        MemVarField::Angles,
        MemVarField::LocalplayerBase,
        MemVarField::RadarStructBase,
    ]
}

impl MemVarField {
    pub fn area_name(&self) -> (name: &'static str)
        ensures
            name@ == field_area_name(*self),
    {
        match self {
            MemVarField::OnGroundOpDec => "on_ground_op_dec",
            MemVarField::OnGroundOpInc => "on_ground_op_inc",
            MemVarField::OnGround => "on_ground",
            MemVarField::DoJump => "do_jump",
            MemVarField::DoAttack1 => "do_attack_1",
            MemVarField::EyePos => "eye_pos",
            MemVarField::AnglesOpRead => "angles_op_read",
            MemVarField::Angles => "angles",
            MemVarField::LocalplayerBase => "localplayer_base",
            MemVarField::RadarStructBase => "radar_struct_base",
        }
    }

    pub fn is_code(&self) -> (b: bool)
        ensures
            b == field_is_code(*self),
    {
        match self {
            MemVarField::OnGroundOpDec | MemVarField::OnGroundOpInc | MemVarField::AnglesOpRead => true,
            _ => false,
        }
    }
}

/// The value read for one memory variable.
#[derive(Clone, Copy, Debug, PartialEq, Eq)]
pub enum FieldValue {
    /// An address read out of the matched code.
    Address(usize),
    /// The matched code itself: its address and length.
    Code(usize, usize),
}

/// Why one memory variable could not be read.
#[derive(Clone, Copy, Debug, PartialEq, Eq)]
pub enum ReadErrorKind {
    /// The area table has no area of this description.
    AreaNotFound,
    /// Scanning for the area failed.
    Scan(ScanError),
    /// The area does not hold exactly one address; its length.
    AddressSize(usize),
}

/// Which memory variable could not be read, and why.
#[derive(Clone, Copy, Debug, PartialEq, Eq)]
pub struct ReadError {
    pub field: MemVarField,
    pub kind: ReadErrorKind,
}

/// Reading one memory variable in the model.
pub open spec fn read_field_spec(
    field: MemVarField,
    areas: Seq<(Seq<char>, AreaView)>,
    sigs: Seq<(Seq<char>, SignatureModel)>,
    images: Seq<ImageView>,
    platform: Platform,
) -> Result<FieldValue, ReadErrorKind> {
    match first_index(area_names(areas), field_area_name(field)) {
        None => Err(ReadErrorKind::AreaNotFound),
        Some(ai) => match scan_spec(areas[ai].1, sigs, images, platform) {
            Err(e) => Err(ReadErrorKind::Scan(e)),
            Ok(hit) => {
                let image = images[hit.image as int];
                if field_is_code(field) {
                    Ok(
                        FieldValue::Code(
                            (image.base + hit.start) as usize,
                            (hit.end - hit.start) as usize,
                        ),
                    )
                } else {
                    let bytes = image.memory.subrange(hit.start as int, hit.end as int);
                    if bytes.len() == address_width() {
                        Ok(FieldValue::Address(le_value(bytes) as usize))
                    } else {
                        Err(ReadErrorKind::AddressSize(bytes.len() as usize))
                    }
                }
            },
        },
    }
}

/// Reading the first `n` memory variables in order, stopping at the first
/// that fails.
pub open spec fn read_fields_spec(
    n: nat,
    areas: Seq<(Seq<char>, AreaView)>,
    sigs: Seq<(Seq<char>, SignatureModel)>,
    images: Seq<ImageView>,
    platform: Platform,
) -> Result<Seq<FieldValue>, ReadError>
    decreases n,
{
    if n == 0 {
        Ok(seq![])
    } else {
        match read_fields_spec((n - 1) as nat, areas, sigs, images, platform) {
            Err(e) => Err(e),
            Ok(values) => {
                let field = all_fields()[n - 1];
                match read_field_spec(field, areas, sigs, images, platform) {
                    Ok(v) => Ok(values.push(v)),
                    Err(kind) => Err(ReadError { field, kind }),
                }
            },
        }
    }
}

/// The addresses of the game variables and code the features work with.
#[derive(Clone, Copy, Debug, PartialEq, Eq)]
pub struct MemVars {
    pub on_ground_op_dec: (usize, usize),
    pub on_ground_op_inc: (usize, usize),
    pub on_ground: usize,
    pub do_jump: usize,
    pub do_attack_1: usize,
    pub eye_pos: usize,
    pub angles_op_read: (usize, usize),
    pub angles: usize,
    pub localplayer_base: usize,
    pub radar_struct_base: usize,
}

pub open spec fn code_of(v: FieldValue) -> (usize, usize) {
    match v {
        FieldValue::Code(a, l) => (a, l),
        FieldValue::Address(_) => (0, 0),
    }
}

pub open spec fn address_of(v: FieldValue) -> usize {
    match v {
        FieldValue::Address(a) => a,
        FieldValue::Code(_, _) => 0,
    }
}

/// The memory variables made of the values read, in reading order.
pub open spec fn mem_vars_of(values: Seq<FieldValue>) -> MemVars {
    MemVars {
        on_ground_op_dec: code_of(values[0]),
        on_ground_op_inc: code_of(values[1]),
        on_ground: address_of(values[2]),
        do_jump: address_of(values[3]),
        do_attack_1: address_of(values[4]),
        eye_pos: address_of(values[5]),
        angles_op_read: code_of(values[6]),
        angles: address_of(values[7]),
        localplayer_base: address_of(values[8]),
        radar_struct_base: address_of(values[9]),
    }
}

/// Why the memory variables could not be read.
#[derive(Debug)]
pub enum MemVarsError {
    /// A signature text of the fixed table did not compile.
    Signature(SignatureError),
    /// An area of the fixed table refers to a missing signature.
    MissingSignature(MissingSignature),
    /// A memory variable could not be read.
    Read(ReadError),
}

fn value_code(v: FieldValue) -> (r: (usize, usize))
    ensures
        r == code_of(v),
{
    match v {
        FieldValue::Code(a, l) => (a, l),
        FieldValue::Address(_) => (0, 0),
    }
}

fn value_address(v: FieldValue) -> (r: usize)
    ensures
        r == address_of(v),
{
    match v {
        FieldValue::Address(a) => a,
        FieldValue::Code(_, _) => 0,
    }
}

fn fields_in_order() -> (v: Vec<MemVarField>)
    ensures
        v@ == all_fields(),
{
    let v = vec![
        MemVarField::OnGroundOpDec,
        MemVarField::OnGroundOpInc,
        MemVarField::OnGround,
        MemVarField::DoJump,
        MemVarField::DoAttack1,
        MemVarField::EyePos,
        MemVarField::AnglesOpRead,
        MemVarField::Angles,
        MemVarField::LocalplayerBase,
        MemVarField::RadarStructBase,
    ];
    assert(v@ =~= all_fields());
    v
}

/// Reads one memory variable: scans for its area, then either keeps the
/// matched code or reads the address stored in it.
pub fn read_field(
    field: MemVarField,
    signatures: &Signatures,
    areas: &SignatureAreas,
    images: &[ModuleImage],
    platform: Platform,
) -> (res: Result<FieldValue, ReadErrorKind>)
    requires
        images_fit(images_view(images@)),
    ensures
        res == read_field_spec(field, areas@, signatures@, images_view(images@), platform),
{
    let name = String::from_str(field.area_name());
    let area = match areas.get(&name) {
        Some(area) => area,
        None => return Err(ReadErrorKind::AreaNotFound),
    };
    let hit = match SignatureScanner::scan_signature(area, signatures, images, platform) {
        Ok(hit) => hit,
        Err(e) => return Err(ReadErrorKind::Scan(e)),
    };
    let image = &images[hit.image];
    assert(images_view(images@)[hit.image as int] == image@);
    assert(crate::scan::image_fits(images_view(images@)[hit.image as int]));
    if field.is_code() {
        Ok(FieldValue::Code(image.base + hit.start, hit.end - hit.start))
    } else {
        let bytes = slice_subrange(image.memory, hit.start, hit.end);
        match address_from_le_bytes(bytes) {
            Some(a) => Ok(FieldValue::Address(a)),
            None => Err(ReadErrorKind::AddressSize(bytes.len())),
        }
    }
}

/// Reads the first `n` memory variables in order; fails with the first
/// that cannot be read.
pub fn read_fields(
    n: usize,
    signatures: &Signatures,
    areas: &SignatureAreas,
    images: &[ModuleImage],
    platform: Platform,
) -> (res: Result<Vec<FieldValue>, ReadError>)
    requires
        n <= 10,
        images_fit(images_view(images@)),
    ensures
        match read_fields_spec(n as nat, areas@, signatures@, images_view(images@), platform) {
            Ok(values) => res matches Ok(v) && v@ == values && v@.len() == n,
            Err(e) => res == Err::<Vec<FieldValue>, ReadError>(e),
        },
{
    let fields = fields_in_order();
    let mut values: Vec<FieldValue> = Vec::new();
    let mut i: usize = 0;
    while i < n
        invariant
            fields@ == all_fields(),
            images_fit(images_view(images@)),
            i <= n <= 10,
            read_fields_spec(i as nat, areas@, signatures@, images_view(images@), platform)
                == Ok::<Seq<FieldValue>, ReadError>(values@),
        decreases n - i,
    {
        let field = fields[i];
        match read_field(field, signatures, areas, images, platform) {
            Ok(v) => values.push(v),
            Err(kind) => {
                let e = ReadError { field, kind };
                proof {
                    lemma_read_fields_stop(
                        (i + 1) as nat,
                        n as nat,
                        areas@,
                        signatures@,
                        images_view(images@),
                        platform,
                    );
                }
                return Err(e);
            },
        }
        i = i + 1;
    }
    proof {
        lemma_read_fields_len(n as nat, areas@, signatures@, images_view(images@), platform);
    }
    Ok(values)
}

/// The on-ground variables alone: the two on-ground code areas, the
/// on-ground counter and the jump command, which are the first four
/// memory variables in reading order.
#[derive(Clone, Copy, Debug, PartialEq, Eq)]
pub struct OnGroundVars {
    pub on_ground_op_dec: (usize, usize),
    pub on_ground_op_inc: (usize, usize),
    pub on_ground: usize,
    pub do_jump: usize,
}

/// The on-ground variables made of the first four values read.
pub open spec fn on_ground_vars_of(values: Seq<FieldValue>) -> OnGroundVars {
    OnGroundVars {
        on_ground_op_dec: code_of(values[0]),
        on_ground_op_inc: code_of(values[1]),
        on_ground: address_of(values[2]),
        do_jump: address_of(values[3]),
    }
}

impl OnGroundVars {
    /// Reads the four on-ground variables, in order, from the given tables
    /// and module images; fails with the first that cannot be read.
    pub fn read_with(
        signatures: &Signatures,
        areas: &SignatureAreas,
        images: &[ModuleImage],
        platform: Platform,
    ) -> (res: Result<OnGroundVars, ReadError>)
        requires
            images_fit(images_view(images@)),
        ensures
            match read_fields_spec(4, areas@, signatures@, images_view(images@), platform) {
                Ok(values) => res == Ok::<OnGroundVars, ReadError>(on_ground_vars_of(values)),
                Err(e) => res == Err::<OnGroundVars, ReadError>(e),
            },
    {
        let values = match read_fields(4, signatures, areas, images, platform) {
            Ok(values) => values,
            Err(e) => return Err(e),
        };
        Ok(
            OnGroundVars {
                on_ground_op_dec: value_code(values[0]),
                on_ground_op_inc: value_code(values[1]),
                on_ground: value_address(values[2]),
                do_jump: value_address(values[3]),
            },
        )
    }

    /// Reads the on-ground variables with the fixed signature and area
    /// tables, which describe exactly these four.
    pub fn read(images: &[ModuleImage], platform: Platform) -> (res: Result<OnGroundVars, MemVarsError>)
        requires
            images_fit(images_view(images@)),
        ensures
            (forall|i: int| 0 <= i < 3 ==> signature_new_succeeds(#[trigger] signature_table()[i].1))
                ==> if all_referenced(area_table(), signature_table_model()) {
                match read_fields_spec(
                    4,
                    area_table(),
                    signature_table_model(),
                    images_view(images@),
                    platform,
                ) {
                    Ok(values) => res matches Ok(m) && m == on_ground_vars_of(values),
                    Err(e) => res matches Err(MemVarsError::Read(r)) && r == e,
                }
            } else {
                res matches Err(MemVarsError::MissingSignature(m)) && is_first_missing(
                    area_table(),
                    signature_table_model(),
                    m,
                )
            },
            !(forall|i: int| 0 <= i < 3 ==> signature_new_succeeds(#[trigger] signature_table()[i].1))
                ==> (res matches Err(MemVarsError::Signature(e)) && !signature_new_succeeds(
                signature_table()[first_failing_signature()].1,
            ) && (e matches SignatureError::WrongFormat(t) ==> t@ == signature_table()[first_failing_signature()].1
                && !is_signature_text(signature_table()[first_failing_signature()].1)) && (
            e matches SignatureError::InvalidPattern(_) ==> is_signature_text(
                signature_table()[first_failing_signature()].1,
            ) && !regex_accepts(signature_pattern(signature_table()[first_failing_signature()].1)))),
    {
        let signatures = match Signatures::new() {
            Ok(s) => s,
            Err(e) => return Err(MemVarsError::Signature(e)),
        };
        let areas = match SignatureAreas::new(&signatures) {
            Ok(a) => a,
            Err(m) => return Err(MemVarsError::MissingSignature(m)),
        };
        match OnGroundVars::read_with(&signatures, &areas, images, platform) {
            Ok(m) => Ok(m),
            Err(e) => Err(MemVarsError::Read(e)),
        }
    }
}

impl MemVars {
    /// Reads every memory variable, in order, from the given tables and
    /// module images; fails with the first variable that cannot be read.
    pub fn read_with(
        signatures: &Signatures,
        areas: &SignatureAreas,
        images: &[ModuleImage],
        platform: Platform,
    ) -> (res: Result<MemVars, ReadError>)
        requires
            images_fit(images_view(images@)),
        ensures
            match read_fields_spec(10, areas@, signatures@, images_view(images@), platform) {
                Ok(values) => res == Ok::<MemVars, ReadError>(mem_vars_of(values)),
                Err(e) => res == Err::<MemVars, ReadError>(e),
            },
    {
        let values = match read_fields(10, signatures, areas, images, platform) {
            Ok(values) => values,
            Err(e) => return Err(e),
        };
        Ok(
            MemVars {
                on_ground_op_dec: value_code(values[0]),
                on_ground_op_inc: value_code(values[1]),
                on_ground: value_address(values[2]),
                do_jump: value_address(values[3]),
                do_attack_1: value_address(values[4]),
                eye_pos: value_address(values[5]),
                angles_op_read: value_code(values[6]),
                angles: value_address(values[7]),
                localplayer_base: value_address(values[8]),
                radar_struct_base: value_address(values[9]),
            },
        )
    }

    /// Reads the memory variables with the fixed signature and area tables.
    pub fn read(images: &[ModuleImage], platform: Platform) -> (res: Result<MemVars, MemVarsError>)
        requires
            images_fit(images_view(images@)),
        ensures
            (forall|i: int| 0 <= i < 3 ==> signature_new_succeeds(#[trigger] signature_table()[i].1))
                ==> if all_referenced(area_table(), signature_table_model()) {
                match read_fields_spec(
                    10,
                    area_table(),
                    signature_table_model(),
                    images_view(images@),
                    platform,
                ) {
                    Ok(values) => res matches Ok(m) && m == mem_vars_of(values),
                    Err(e) => res matches Err(MemVarsError::Read(r)) && r == e,
                }
            } else {
                res matches Err(MemVarsError::MissingSignature(m)) && is_first_missing(
                    area_table(),
                    signature_table_model(),
                    m,
                )
            },
            !(forall|i: int| 0 <= i < 3 ==> signature_new_succeeds(#[trigger] signature_table()[i].1))
                ==> (res matches Err(MemVarsError::Signature(e)) && !signature_new_succeeds(
                signature_table()[first_failing_signature()].1,
            ) && (e matches SignatureError::WrongFormat(t) ==> t@ == signature_table()[first_failing_signature()].1
                && !is_signature_text(signature_table()[first_failing_signature()].1)) && (
            e matches SignatureError::InvalidPattern(_) ==> is_signature_text(
                signature_table()[first_failing_signature()].1,
            ) && !regex_accepts(signature_pattern(signature_table()[first_failing_signature()].1)))),
    {
        let signatures = match Signatures::new() {
            Ok(s) => s,
            Err(e) => return Err(MemVarsError::Signature(e)),
        };
        let areas = match SignatureAreas::new(&signatures) {
            Ok(a) => a,
            Err(m) => return Err(MemVarsError::MissingSignature(m)),
        };
        match MemVars::read_with(&signatures, &areas, images, platform) {
            Ok(m) => Ok(m),
            Err(e) => Err(MemVarsError::Read(e)),
        }
    }
}

proof fn lemma_read_fields_len(
    n: nat,
    areas: Seq<(Seq<char>, AreaView)>,
    sigs: Seq<(Seq<char>, SignatureModel)>,
    images: Seq<ImageView>,
    platform: Platform,
)
    ensures
        read_fields_spec(n, areas, sigs, images, platform) matches Ok(values) ==> values.len() == n,
    decreases n,
{
    if n > 0 {
        lemma_read_fields_len((n - 1) as nat, areas, sigs, images, platform);
    }
}

proof fn lemma_read_fields_stop(
    m: nat,
    n: nat,
    areas: Seq<(Seq<char>, AreaView)>,
    sigs: Seq<(Seq<char>, SignatureModel)>,
    images: Seq<ImageView>,
    platform: Platform,
)
    requires
        m <= n,
        read_fields_spec(m, areas, sigs, images, platform) is Err,
    ensures
        read_fields_spec(n, areas, sigs, images, platform) == read_fields_spec(
            m,
            areas,
            sigs,
            images,
            platform,
        ),
    decreases n - m,
{
    if n > m {
        lemma_read_fields_stop(m, (n - 1) as nat, areas, sigs, images, platform);
    }
}


/// The fixed area table describes only the on-ground code, the on-ground
/// counter and the jump command; reading all memory variables with it
/// therefore always stops, at the latest at the attack command, whatever
/// the signatures and the module images.
pub proof fn law_fixed_areas_stop_reading(
    sigs: Seq<(Seq<char>, SignatureModel)>,
    images: Seq<ImageView>,
    platform: Platform,
)
    ensures
        read_fields_spec(10, area_table(), sigs, images, platform) is Err,
{
    reveal_strlit("on_ground_op_dec");
    reveal_strlit("on_ground_op_inc");
    reveal_strlit("on_ground");
    reveal_strlit("do_jump");
    reveal_strlit("do_attack_1");
    let names = area_names(area_table());
    let target = field_area_name(MemVarField::DoAttack1);
    assert(all_fields()[4] == MemVarField::DoAttack1);
    assert(names.len() == 4);
    assert forall|i: int| 0 <= i < 4 implies names[i] != target by {
        assert(names[i] == area_table()[i].0);
        assert(names[i].len() != target.len() || names[i][0] != target[0] || names[i][3] != target[3]);
    }
    lemma_first_index_none(names, target, 4);
    assert(read_field_spec(MemVarField::DoAttack1, area_table(), sigs, images, platform) is Err);
    assert(read_fields_spec(5, area_table(), sigs, images, platform) is Err);
    lemma_read_fields_stop(5, 10, area_table(), sigs, images, platform);
}

/// Little-endian reading: a single byte is its own value, and the bytes
/// after the first `s.len()` count `256^s.len()` times as much.
pub proof fn law_le_value(s: Seq<u8>, t: Seq<u8>, x: u8)
    ensures
        le_value(seq![x]) == x,
        le_value(s + t) == le_value(s) + pow256(s.len()) * le_value(t),
    decreases s.len(),
{
    assert(seq![x].drop_first() =~= Seq::<u8>::empty());
    assert(le_value(Seq::<u8>::empty()) == 0);
    assert(le_value(seq![x]) == seq![x][0] as nat + 256 * le_value(seq![x].drop_first()));
    if s.len() > 0 {
        let s1 = s.drop_first();
        law_le_value(s1, t, x);
        assert((s + t).drop_first() =~= s1 + t);
        assert((s + t)[0] == s[0]);
        assert(le_value(s + t) == s[0] as nat + 256 * le_value(s1 + t));
        assert(le_value(s) == s[0] as nat + 256 * le_value(s1));
        assert(pow256(s.len()) == 256 * pow256(s1.len()));
        let a = le_value(s1);
        let p = pow256(s1.len());
        let b = le_value(t);
        assert(256 * (a + p * b) == 256 * a + (256 * p) * b) by (nonlinear_arith);
        assert(le_value(s1 + t) == a + p * b);
        assert(pow256(s.len()) * b == (256 * p) * b);
        assert(le_value(s + t) == le_value(s) + pow256(s.len()) * le_value(t));
    } else {
        assert(s + t =~= t);
        assert(pow256(0) == 1);
        assert(le_value(s) == 0);
        assert(1 * le_value(t) == le_value(t));
    }
}

/// What a memory variable is, given where its area was found: a code
/// variable is the address at which the selected bytes lie in memory (the
/// image's base plus the hit's start) and their number; an address
/// variable is the machine word that the selected bytes hold, read
/// little-endian, and is refused when they are not one machine word long.
pub proof fn law_field_value_from_hit(
    field: MemVarField,
    areas: Seq<(Seq<char>, AreaView)>,
    sigs: Seq<(Seq<char>, SignatureModel)>,
    images: Seq<ImageView>,
    platform: Platform,
    ai: int,
    hit: ScanHit,
)
    requires
        first_index(area_names(areas), field_area_name(field)) == Some(ai),
        scan_spec(areas[ai].1, sigs, images, platform) == Ok::<ScanHit, ScanError>(hit),
        hit.image < images.len(),
        hit.start <= hit.end <= images[hit.image as int].memory.len(),
        images_fit(images),
    ensures
        ({
            let image = images[hit.image as int];
            let bytes = image.memory.subrange(hit.start as int, hit.end as int);
            &&& field_is_code(field) ==> read_field_spec(field, areas, sigs, images, platform)
                == Ok::<FieldValue, ReadErrorKind>(
                FieldValue::Code((image.base + hit.start) as usize, bytes.len() as usize),
            )
            &&& field_is_code(field) ==> image.base + hit.start + bytes.len() <= image.base
                + image.memory.len()
            &&& !field_is_code(field) && bytes.len() == address_width() ==> read_field_spec(
                field,
                areas,
                sigs,
                images,
                platform,
            ) == Ok::<FieldValue, ReadErrorKind>(FieldValue::Address(le_value(bytes) as usize))
            &&& !field_is_code(field) && bytes.len() != address_width() ==> read_field_spec(
                field,
                areas,
                sigs,
                images,
                platform,
            ) == Err::<FieldValue, ReadErrorKind>(ReadErrorKind::AddressSize(bytes.len() as usize))
        }),
{
}

proof fn lemma_read_fields_values(
    n: nat,
    areas: Seq<(Seq<char>, AreaView)>,
    sigs: Seq<(Seq<char>, SignatureModel)>,
    images: Seq<ImageView>,
    platform: Platform,
)
    requires
        n <= 10,
        read_fields_spec(n, areas, sigs, images, platform) is Ok,
    ensures
        ({
            let values = read_fields_spec(n, areas, sigs, images, platform).unwrap();
            &&& values.len() == n
            &&& forall|k: int|
                0 <= k < n ==> read_field_spec(all_fields()[k], areas, sigs, images, platform)
                    == Ok::<FieldValue, ReadErrorKind>(#[trigger] values[k])
        }),
    decreases n,
{
    if n > 0 {
        lemma_read_fields_values((n - 1) as nat, areas, sigs, images, platform);
    }
}

/// The value read for a field has the field's kind: code fields give code,
/// the others addresses.
proof fn lemma_field_kind(
    field: MemVarField,
    areas: Seq<(Seq<char>, AreaView)>,
    sigs: Seq<(Seq<char>, SignatureModel)>,
    images: Seq<ImageView>,
    platform: Platform,
)
    ensures
        read_field_spec(field, areas, sigs, images, platform) matches Ok(v) ==> (field_is_code(field)
            <==> v is Code),
{
}

/// Each of the on-ground variables is the value read for its own area:
/// the two on-ground code areas are the code read for `OnGroundOpDec` and
/// `OnGroundOpInc`, the on-ground counter the address read for `OnGround`,
/// and the jump command the address read for `DoJump`.
pub proof fn law_on_ground_vars_fields(
    areas: Seq<(Seq<char>, AreaView)>,
    sigs: Seq<(Seq<char>, SignatureModel)>,
    images: Seq<ImageView>,
    platform: Platform,
)
    requires
        read_fields_spec(4, areas, sigs, images, platform) is Ok,
    ensures
        ({
            let v = on_ground_vars_of(read_fields_spec(4, areas, sigs, images, platform).unwrap());
            &&& read_field_spec(MemVarField::OnGroundOpDec, areas, sigs, images, platform) == Ok::<
                FieldValue,
                ReadErrorKind,
            >(FieldValue::Code(v.on_ground_op_dec.0, v.on_ground_op_dec.1))
            &&& read_field_spec(MemVarField::OnGroundOpInc, areas, sigs, images, platform) == Ok::<
                FieldValue,
                ReadErrorKind,
            >(FieldValue::Code(v.on_ground_op_inc.0, v.on_ground_op_inc.1))
            &&& read_field_spec(MemVarField::OnGround, areas, sigs, images, platform) == Ok::<
                FieldValue,
                ReadErrorKind,
            >(FieldValue::Address(v.on_ground))
            &&& read_field_spec(MemVarField::DoJump, areas, sigs, images, platform) == Ok::<
                FieldValue,
                ReadErrorKind,
            >(FieldValue::Address(v.do_jump))
        }),
{
    lemma_read_fields_values(4, areas, sigs, images, platform);
    let values = read_fields_spec(4, areas, sigs, images, platform).unwrap();
    assert(all_fields()[0] == MemVarField::OnGroundOpDec);
    assert(all_fields()[1] == MemVarField::OnGroundOpInc);
    assert(all_fields()[2] == MemVarField::OnGround);
    assert(all_fields()[3] == MemVarField::DoJump);
    lemma_field_kind(MemVarField::OnGroundOpDec, areas, sigs, images, platform);
    lemma_field_kind(MemVarField::OnGroundOpInc, areas, sigs, images, platform);
    lemma_field_kind(MemVarField::OnGround, areas, sigs, images, platform);
    lemma_field_kind(MemVarField::DoJump, areas, sigs, images, platform);
}

/// Each memory variable is the value read for its own area, in the kind
/// of its field: code for the three code areas, addresses for the rest.
pub proof fn law_mem_vars_fields(
    areas: Seq<(Seq<char>, AreaView)>,
    sigs: Seq<(Seq<char>, SignatureModel)>,
    images: Seq<ImageView>,
    platform: Platform,
)
    requires
        read_fields_spec(10, areas, sigs, images, platform) is Ok,
    ensures
        ({
            let m = mem_vars_of(read_fields_spec(10, areas, sigs, images, platform).unwrap());
            let read = |f: MemVarField| read_field_spec(f, areas, sigs, images, platform);
            &&& read(MemVarField::OnGroundOpDec) == Ok::<FieldValue, ReadErrorKind>(
                FieldValue::Code(m.on_ground_op_dec.0, m.on_ground_op_dec.1),
            )
            &&& read(MemVarField::OnGroundOpInc) == Ok::<FieldValue, ReadErrorKind>(
                FieldValue::Code(m.on_ground_op_inc.0, m.on_ground_op_inc.1),
            )
            &&& read(MemVarField::OnGround) == Ok::<FieldValue, ReadErrorKind>(
                FieldValue::Address(m.on_ground),
            )
            &&& read(MemVarField::DoJump) == Ok::<FieldValue, ReadErrorKind>(
                FieldValue::Address(m.do_jump),
            )
            &&& read(MemVarField::DoAttack1) == Ok::<FieldValue, ReadErrorKind>(
                FieldValue::Address(m.do_attack_1),
            )
            &&& read(MemVarField::EyePos) == Ok::<FieldValue, ReadErrorKind>(
                FieldValue::Address(m.eye_pos),
            )
            &&& read(MemVarField::AnglesOpRead) == Ok::<FieldValue, ReadErrorKind>(
                FieldValue::Code(m.angles_op_read.0, m.angles_op_read.1),
            )
            &&& read(MemVarField::Angles) == Ok::<FieldValue, ReadErrorKind>(
                FieldValue::Address(m.angles),
            )
            &&& read(MemVarField::LocalplayerBase) == Ok::<FieldValue, ReadErrorKind>(
                FieldValue::Address(m.localplayer_base),
            )
            &&& read(MemVarField::RadarStructBase) == Ok::<FieldValue, ReadErrorKind>(
                FieldValue::Address(m.radar_struct_base),
            )
        }),
{
    lemma_read_fields_values(10, areas, sigs, images, platform);
    let values = read_fields_spec(10, areas, sigs, images, platform).unwrap();
    assert forall|k: int| 0 <= k < 10 implies (read_field_spec(
        all_fields()[k],
        areas,
        sigs,
        images,
        platform,
    ) == Ok::<FieldValue, ReadErrorKind>(#[trigger] values[k]) && (field_is_code(all_fields()[k])
        <==> values[k] is Code)) by {
        lemma_field_kind(all_fields()[k], areas, sigs, images, platform);
    }
    assert(values[0] == values[0] && values[1] == values[1] && values[2] == values[2] && values[3]
        == values[3] && values[4] == values[4] && values[5] == values[5] && values[6] == values[6]
        && values[7] == values[7] && values[8] == values[8] && values[9] == values[9]);
}

} // verus!
