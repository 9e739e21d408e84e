//! The model catalog: what a model is, how its quantization and memory need are
//! read off its name and configuration, and how a scanned directory is judged.
use vstd::prelude::*;
use vstd::string::*;
use crate::text::{
    after_last,
    after_last_start,
    ends_with_str,
    occurs_at,
    occurs_at_exec,
    replace_first,
    replace_first_exec,
    trim,
    trim_chars,
    slice_chars,
    string_of,
    chars_equal_str,
    has_suffix,
    chars_of,
    decimal,
    decimal_string,
    has_infix,
    contains_str,
    lowercase,
    push_decimal,
    to_lowercase,
};
use crate::table::{ModelTable, id_map, sorted_by_id, unique_ids, lemma_sorted_unique, lemma_same_models_same_map};
use crate::order::text_less;
use crate::json::{json_parses, json_present_at, json_unsigned_at, json_text_at, json_values_at, names_view, parses, present_at, unsigned_at, text_at, values_at};
use crate::paths::{join, join_exec, sort_unique_paths, sorted_unique_paths};
use crate::rules::{find_rule, first_rule, find_equal, first_equal, any_infix, is_one_of, contains_any, equals_any};

verus! {

/// What a model does in the pipeline: transcribe speech or rewrite text.
#[derive(Clone, Copy, Debug, PartialEq, Eq, Structural)]
pub enum Kind {
    Speech,
    Rewrite,
}

/// One JSON value at a place in a model configuration, as the catalog reads it.
#[derive(Clone, Debug)]
pub enum Field {
    /// Nothing is stored at that place.
    Absent,
    /// A non-negative integer that fits in `u64`.
    Unsigned(u64),
    /// A string.
    Text(String),
    /// Any other value (negative or fractional number, boolean, null, array, object).
    Other,
}

/// What the catalog reads from a model's `config.json`.
#[derive(Clone, Debug)]
pub struct ModelConfig {
    /// The value at `/quantization/bits`.
    pub quantization_bits: Field,
    /// The value at `/quantization_config/bits`.
    pub quantization_config_bits: Field,
    /// The value of the top-level key `torch_dtype`.
    pub torch_dtype: Field,
    /// The value of the top-level key `dtype`.
    pub dtype: Field,
    /// The value of the top-level key `model_type`.
    pub model_type: Field,
    /// Whether the top-level key `n_mels` is present.
    pub has_n_mels: bool,
}

/// A configuration value as the contracts see it.
pub enum FieldView {
    Absent,
    Unsigned(u64),
    Text(Seq<char>),
    Other,
}

impl View for Field {
    type V = FieldView;

    open spec fn view(&self) -> FieldView {
        match self {
            Field::Absent => FieldView::Absent,
            Field::Unsigned(n) => FieldView::Unsigned(*n),
            Field::Text(s) => FieldView::Text(s@),
            Field::Other => FieldView::Other,
        }
    }
}

/// What the catalog reads from a configuration, as the contracts see it.
pub struct ConfigView {
    pub quantization_bits: FieldView,
    pub quantization_config_bits: FieldView,
    pub torch_dtype: FieldView,
    pub dtype: FieldView,
    pub model_type: FieldView,
    pub has_n_mels: bool,
}

impl View for ModelConfig {
    type V = ConfigView;

    open spec fn view(&self) -> ConfigView {
        ConfigView {
            quantization_bits: self.quantization_bits@,
            quantization_config_bits: self.quantization_config_bits@,
            torch_dtype: self.torch_dtype@,
            dtype: self.dtype@,
            model_type: self.model_type@,
            has_n_mels: self.has_n_mels,
        }
    }
}

/// The value at `pointer` in the JSON text `text`, as the catalog reads it.
pub open spec fn field_at(text: Seq<u8>, pointer: Seq<char>) -> FieldView {
    if !json_present_at(text, pointer) {
        FieldView::Absent
    } else {
        match json_unsigned_at(text, pointer) {
            Some(n) => FieldView::Unsigned(n),
            None => match json_text_at(text, pointer) {
                Some(t) => FieldView::Text(t),
                None => FieldView::Other,
            },
        }
    }
}

/// The configuration read from the JSON text of a `config.json`.
pub open spec fn config_of_text(text: Seq<u8>) -> ConfigView {
    ConfigView {
        quantization_bits: field_at(text, "/quantization/bits"@),
        quantization_config_bits: field_at(text, "/quantization_config/bits"@),
        torch_dtype: field_at(text, "/torch_dtype"@),
        dtype: field_at(text, "/dtype"@),
        model_type: field_at(text, "/model_type"@),
        has_n_mels: json_present_at(text, "/n_mels"@),
    }
}

fn field_of(text: &[u8], pointer: &str) -> (f: Field)
    ensures
        f@ == field_at(text@, pointer@),
{
    if !present_at(text, pointer) {
        Field::Absent
    } else {
        match unsigned_at(text, pointer) {
            Some(n) => Field::Unsigned(n),
            None => match text_at(text, pointer) {
                Some(t) => Field::Text(t),
                None => Field::Other,
            },
        }
    }
}

/// The configuration in the JSON text of a `config.json`, when it parses: the
/// values at `/quantization/bits`, `/quantization_config/bits`, `/torch_dtype`,
/// `/dtype` and `/model_type`, and whether `/n_mels` is present.
pub fn model_config_of(text: &[u8]) -> (r: Option<ModelConfig>)
    ensures
        r is Some <==> json_parses(text@),
        r matches Some(c) ==> c@ == config_of_text(text@),
{
    if !parses(text) {
        return None;
    }
    Some(
        ModelConfig {
            quantization_bits: field_of(text, "/quantization/bits"),
            quantization_config_bits: field_of(text, "/quantization_config/bits"),
            torch_dtype: field_of(text, "/torch_dtype"),
            dtype: field_of(text, "/dtype"),
            model_type: field_of(text, "/model_type"),
            has_n_mels: present_at(text, "/n_mels"),
        },
    )
}

/// A speech or rewriting model, downloaded (`path` is set) or merely available.
#[derive(Clone, Debug)]
pub struct Model {
    pub id: String,
    pub kind: Kind,
    pub path: Option<String>,
    pub bytes: u64,
    pub quant: String,
}

/// The first of two fields that is present (`Option::or_else` on lookups).
pub open spec fn first_present(a: FieldView, b: FieldView) -> FieldView {
    if a is Absent {
        b
    } else {
        a
    }
}

/// The quantization width recorded in a configuration, if it is an unsigned integer.
pub open spec fn config_bits(c: ConfigView) -> Option<u64> {
    match first_present(c.quantization_bits, c.quantization_config_bits) {
        FieldView::Unsigned(n) => Some(n),
        _ => None,
    }
}

/// The storage type recorded in a configuration, or "Original".
pub open spec fn config_dtype(c: ConfigView) -> Seq<char> {
    match first_present(c.torch_dtype, c.dtype) {
        FieldView::Text(s) => s,
        _ => "Original"@,
    }
}

/// Name fragments that identify a quantization, in the order they are tried.
pub open spec fn quant_rules() -> Seq<(&'static str, &'static str)> {
    seq![
        ("mxfp4", "MXFP4"),
        ("mxfp8", "MXFP8"),
        ("nvfp4", "NVFP4"),
        ("2bit", "2-bit"),
        ("3bit", "3-bit"),
        ("4bit", "4-bit"),
        ("6bit", "6-bit"),
        ("8bit", "8-bit"),
        ("-q4", "4-bit"),
        ("-q8", "8-bit"),
        ("bf16", "BF16"),
        ("fp16", "FP16"),
        ("fp32", "FP32"),
    ]
}

fn quant_rule_table() -> (t: Vec<(&'static str, &'static str)>)
    ensures
        t@ == quant_rules(),
{
    let t = vec![
        ("mxfp4", "MXFP4"),
        ("mxfp8", "MXFP8"),
        ("nvfp4", "NVFP4"),
        ("2bit", "2-bit"),
        ("3bit", "3-bit"),
        ("4bit", "4-bit"),
        ("6bit", "6-bit"),
        ("8bit", "8-bit"),
        ("-q4", "4-bit"),
        ("-q8", "8-bit"),
        ("bf16", "BF16"),
        ("fp16", "FP16"),
        ("fp32", "FP32"),
    ];
    assert(t@ =~= quant_rules());
    t
}

/// The quantization label of a model whose lowercased id is `lower_id`:
/// the bit width from the configuration, else a label recognised in the id,
/// else the configuration's storage type, else "Original".
pub open spec fn quantization_label(lower_id: Seq<char>, c: ConfigView) -> Seq<char> {
    match config_bits(c) {
        Some(n) => decimal(n as nat) + "-bit"@,
        None => match first_rule(lower_id, quant_rules()) {
            Some(label) => label@,
            None => config_dtype(c),
        },
    }
}

/// The quantization label of the model `id` with configuration `config`.
pub fn quantization(id: &str, config: &ModelConfig) -> (r: String)
    ensures
        r@ == quantization_label(lowercase(id@), config@),
{
    let lower = to_lowercase(id);
    quantization_of_lower(&lower, config)
}

/// The quantization label, given the id already lowercased.
pub fn quantization_of_lower(lower_id: &String, config: &ModelConfig) -> (r: String)
    ensures
        r@ == quantization_label(lower_id@, config@),
{
    let bits = if !matches!(config.quantization_bits, Field::Absent) {
        &config.quantization_bits
    } else {
        &config.quantization_config_bits
    };
    if let Field::Unsigned(n) = bits {
        let mut s = decimal_string(*n);
        s.append("-bit");
        return s;
    }
    let lower = chars_of(lower_id.as_str());
    let table = quant_rule_table();
    if let Some(label) = find_rule(&lower, &table) {
        return String::from_str(label);
    }
    let dtype = if !matches!(config.torch_dtype, Field::Absent) {
        &config.torch_dtype
    } else {
        &config.dtype
    };
    match dtype {
        Field::Text(s) => s.clone(),
        _ => String::from_str("Original"),
    }
}

/// One gibibyte, the unit in which the desk reports memory.
pub const GIB: u64 = 1073741824;

/// Weights of the Whisper family, in hundredths of a billion parameters.
pub open spec fn whisper_rules() -> Seq<(&'static str, u64)> {
    seq![("tiny", 4), ("base", 8), ("small", 25), ("medium", 77), ("turbo", 81)]
}

/// Parameter counts read off other names, in hundredths of a billion.
pub open spec fn param_rules() -> Seq<(&'static str, u64)> {
    seq![
        ("110m", 11),
        ("0.6b", 60),
        ("1.1b", 110),
        ("1.5b", 150),
        ("2.5b", 250),
        ("3b", 300),
        ("4b", 400),
        ("7b", 700),
        ("9b", 900),
        ("vibevoice", 900),
    ]
}

/// Bytes per parameter for a quantization label, in hundredths of a byte.
pub open spec fn byte_rules() -> Seq<(&'static str, u64)> {
    seq![
        ("2-bit", 35),
        ("3-bit", 45),
        ("4-bit", 60),
        ("MXFP4", 60),
        ("NVFP4", 60),
        ("6-bit", 85),
        ("8-bit", 110),
        ("MXFP8", 110),
        ("FP32", 400),
    ]
}

fn whisper_rule_table() -> (t: Vec<(&'static str, u64)>)
    ensures
        t@ == whisper_rules(),
{
    let t = vec![("tiny", 4), ("base", 8), ("small", 25), ("medium", 77), ("turbo", 81)];
    assert(t@ =~= whisper_rules());
    t
}

fn param_rule_table() -> (t: Vec<(&'static str, u64)>)
    ensures
        t@ == param_rules(),
{
    let t = vec![
        ("110m", 11),
        ("0.6b", 60),
        ("1.1b", 110),
        ("1.5b", 150),
        ("2.5b", 250),
        ("3b", 300),
        ("4b", 400),
        ("7b", 700),
        ("9b", 900),
        ("vibevoice", 900),
    ];
    assert(t@ =~= param_rules());
    t
}

fn byte_rule_table() -> (t: Vec<(&'static str, u64)>)
    ensures
        t@ == byte_rules(),
{
    let t = vec![
        ("2-bit", 35),
        ("3-bit", 45),
        ("4-bit", 60),
        ("MXFP4", 60),
        ("NVFP4", 60),
        ("6-bit", 85),
        ("8-bit", 110),
        ("MXFP8", 110),
        ("FP32", 400),
    ];
    assert(t@ =~= byte_rules());
    t
}

/// Estimated parameter count, in hundredths of a billion, of a model whose
/// lowercased id is `lower_id`.
pub open spec fn param_centis(lower_id: Seq<char>) -> u64 {
    if has_infix(lower_id, "s1-mini"@) {
        60
    } else if has_infix(lower_id, "whisper"@) {
        match first_rule(lower_id, whisper_rules()) {
            Some(v) => v,
            None => 155,
        }
    } else {
        match first_rule(lower_id, param_rules()) {
            Some(v) => v,
            None => 400,
        }
    }
}

/// Estimated bytes per parameter, in hundredths, of a model whose lowercased id is
/// `lower_id`: the id's quantization label looked up in `byte_rules`, else 2 bytes.
pub open spec fn byte_centis(lower_id: Seq<char>) -> u64 {
    match first_equal(quantization_label(lower_id, no_config()), byte_rules()) {
        Some(v) => v,
        None => 200,
    }
}

/// The configuration of a model that has none (`Value::Null`).
pub open spec fn no_config() -> ConfigView {
    ConfigView {
        quantization_bits: FieldView::Absent,
        quantization_config_bits: FieldView::Absent,
        torch_dtype: FieldView::Absent,
        dtype: FieldView::Absent,
        model_type: FieldView::Absent,
        has_n_mels: false,
    }
}

/// Runtime overhead, in millionths of a byte: 1 GiB for speech, 0.45 GiB for rewriting.
pub open spec fn overhead_units(kind: Kind) -> nat {
    if kind == Kind::Speech {
        (1_000_000 * GIB) as nat
    } else {
        (450_000 * GIB) as nat
    }
}

/// Estimated memory need, in millionths of a byte: 1.35 times the weight size plus
/// the overhead of the kind. The weight size is `bytes` when known, else the estimated
/// parameter count times the estimated bytes per parameter.
pub open spec fn estimated_units(lower_id: Seq<char>, kind: Kind, bytes: u64) -> nat {
    let weights: nat = if bytes > 0 {
        (1_350_000 * bytes) as nat
    } else {
        (135 * param_centis(lower_id) * byte_centis(lower_id) * GIB) as nat
    };
    weights + overhead_units(kind)
}

/// The estimated memory need of model `m`, in millionths of a byte.
pub open spec fn model_units(m: Model) -> nat {
    estimated_units(lowercase(m.id@), m.kind, m.bytes)
}

impl ModelConfig {
    /// The configuration of a model without one: nothing is present.
    pub fn empty() -> (c: ModelConfig)
        ensures
            c@ == no_config(),
    {
        ModelConfig {
            quantization_bits: Field::Absent,
            quantization_config_bits: Field::Absent,
            torch_dtype: Field::Absent,
            dtype: Field::Absent,
            model_type: Field::Absent,
            has_n_mels: false,
        }
    }
}

/// The estimated parameter count, in hundredths of a billion.
fn param_centis_of(lower: &Vec<char>) -> (r: u64)
    ensures
        r == param_centis(lower@),
{
    if contains_str(lower, "s1-mini") {
        60
    } else if contains_str(lower, "whisper") {
        match find_rule(lower, &whisper_rule_table()) {
            Some(v) => v,
            None => 155,
        }
    } else {
        match find_rule(lower, &param_rule_table()) {
            Some(v) => v,
            None => 400,
        }
    }
}

/// The estimated bytes per parameter, in hundredths.
fn byte_centis_of(lower: &Vec<char>) -> (r: u64)
    ensures
        r == byte_centis(lower@),
{
    let lower_string = crate::text::string_of(lower);
    let label = quantization_of_lower(&lower_string, &ModelConfig::empty());
    let label_chars = chars_of(label.as_str());
    match find_equal(&label_chars, &byte_rule_table()) {
        Some(v) => v,
        None => 200,
    }
}

/// The estimated memory need, in millionths of a byte, of a model of `kind`
/// whose lowercased id is `lower_id` and whose weights take `bytes` (0 when not
/// downloaded).
pub fn estimate_from_lower(lower_id: &str, kind: Kind, bytes: u64) -> (r: u128)
    ensures
        r == estimated_units(lower_id@, kind, bytes),
{
    let lower = &chars_of(lower_id);
    let g: u128 = GIB as u128;
    let weights: u128 = if bytes > 0 {
        1_350_000u128 * (bytes as u128)
    } else {
        let p: u128 = param_centis_of(lower) as u128;
        let b: u128 = byte_centis_of(lower) as u128;
        assert(p <= 900 && b <= 400) by {
            reveal_with_fuel(first_rule, 11);
            reveal_with_fuel(first_equal, 10);
        }
        assert(135 * p * b <= 135 * 900 * 400) by (nonlinear_arith)
            requires
                p <= 900,
                b <= 400,
        ;
        135 * p * b * g
    };
    let overhead: u128 = if kind == Kind::Speech {
        1_000_000u128 * g
    } else {
        450_000u128 * g
    };
    weights + overhead
}

/// Physical and currently available memory of this machine, in bytes.
#[derive(Clone, Copy, Debug)]
pub struct Memory {
    pub total_bytes: u64,
    pub available_bytes: u64,
}

/// The memory budget for models, in millionths of a byte: the smaller of 60% of
/// physical memory and available memory less 1 GiB (never below zero).
pub open spec fn budget_units(m: Memory) -> nat {
    let share: nat = (600_000 * m.total_bytes) as nat;
    let spare: nat = if m.available_bytes > GIB {
        ((m.available_bytes - GIB) * 1_000_000) as nat
    } else {
        0
    };
    if share <= spare {
        share
    } else {
        spare
    }
}

/// Whether model `m` fits in the budget of `memory`.
pub open spec fn fits(m: Model, memory: Memory) -> bool {
    model_units(m) <= budget_units(memory)
}

#[verifier::external_type_specification]
#[verifier::external_body]
pub struct ExSystem(sysinfo::System);

/// Calls `sysinfo::System::new`, which creates a handle with nothing loaded.
#[verifier::external_body]
fn new_system() -> sysinfo::System {
    sysinfo::System::new()
}

/// Calls `sysinfo::System::refresh_memory`, which reloads the memory figures.
#[verifier::external_body]
fn refresh_memory(system: &mut sysinfo::System) {
    system.refresh_memory()
}

/// Calls `sysinfo::System::total_memory`: physical memory in bytes, as the
/// machine reports it (nothing is stated of the value).
#[verifier::external_body]
fn total_memory(system: &sysinfo::System) -> u64 {
    system.total_memory()
}

/// Calls `sysinfo::System::available_memory`: memory available for reuse, in
/// bytes, as the machine reports it (nothing is stated of the value).
#[verifier::external_body]
fn available_memory(system: &sysinfo::System) -> u64 {
    system.available_memory()
}

impl Memory {
    /// Reads the machine's physical and available memory.
    pub fn read() -> (m: Memory) {
        let mut system = new_system();
        refresh_memory(&mut system);
        let total_bytes = total_memory(&system);
        let available_bytes = available_memory(&system);
        Memory { total_bytes, available_bytes }
    }

    /// The memory budget for models, in millionths of a byte.
    pub fn budget(&self) -> (r: u128)
        ensures
            r == budget_units(*self),
    {
        let share: u128 = 600_000u128 * (self.total_bytes as u128);
        let spare: u128 = if self.available_bytes > GIB {
            ((self.available_bytes - GIB) as u128) * 1_000_000u128
        } else {
            0
        };
        if share <= spare {
            share
        } else {
            spare
        }
    }
}

/// Divisor that turns millionths of a byte into tenths of a GiB.
pub open spec fn tenth_gib_units() -> nat {
    (GIB * 100_000) as nat
}

/// `units` in tenths of a GiB, rounded to the nearest tenth with ties to even.
pub open spec fn rounded_tenths(units: nat) -> nat {
    let q = units / tenth_gib_units();
    let r = units % tenth_gib_units();
    if 2 * r > tenth_gib_units() || (2 * r == tenth_gib_units() && q % 2 == 1) {
        q + 1
    } else {
        q
    }
}

/// The one-line description shown under a model in the library.
pub open spec fn detail_text(m: Model) -> Seq<char> {
    let t = rounded_tenths(model_units(m));
    (if m.path.is_some() { "Downloaded"@ } else { "Available"@ }) + " \u{b7} "@ + m.quant@
        + " \u{b7} ~"@ + decimal(t / 10) + "."@ + decimal(t % 10) + " GB memory"@
}

/// An estimate never exceeds 1.35 times the largest `u64` plus 1 GiB, in
/// millionths of a byte.
pub proof fn lemma_units_bound(m: Model)
    ensures
        model_units(m) <= 1_350_000u128 * 0xffff_ffff_ffff_ffffu128 + 1_000_000u128 * 1073741824u128,
{
    let l = lowercase(m.id@);
    reveal_with_fuel(first_rule, 11);
    reveal_with_fuel(first_equal, 10);
    assert(param_centis(l) <= 900);
    assert(byte_centis(l) <= 400);
    assert(135 * param_centis(l) * byte_centis(l) <= 135 * 900 * 400) by (nonlinear_arith)
        requires
            param_centis(l) <= 900,
            byte_centis(l) <= 400,
    ;
}

impl Model {
    /// The estimated memory this model needs while running, in millionths of a
    /// byte (bytes times one million).
    pub fn estimated_microbytes(&self) -> (r: u128)
        ensures
            r == model_units(*self),
    {
        let lower = to_lowercase(self.id.as_str());
        estimate_from_lower(lower.as_str(), self.kind, self.bytes)
    }

    /// The description shown in the library: whether the model is downloaded,
    /// its quantization, and its estimated memory need in GB to one decimal.
    pub fn detail(&self) -> (r: String)
        ensures
            r@ == detail_text(*self),
    {
        let units = self.estimated_microbytes();
        let d: u128 = (GIB as u128) * 100_000u128;
        let q: u128 = units / d;
        let rem: u128 = units % d;
        let t: u128 = if 2 * rem > d || (2 * rem == d && q % 2 == 1) {
            q + 1
        } else {
            q
        };
        proof {
            lemma_units_bound(*self);
        }
        assert(q <= 250_000_000_000) by (nonlinear_arith)
            requires
                units <= 1_350_000u128 * 0xffff_ffff_ffff_ffffu128 + 1_000_000u128 * 1073741824u128,
                d == 107374182400000u128,
                q == units / d,
        ;
        let t64: u64 = t as u64;
        let mut s = if self.installed() {
            String::from_str("Downloaded")
        } else {
            String::from_str("Available")
        };
        s.append(" \u{b7} ");
        s.append(self.quant.as_str());
        s.append(" \u{b7} ~");
        push_decimal(&mut s, t64 / 10);
        s.append(".");
        push_decimal(&mut s, t64 % 10);
        s.append(" GB memory");
        s
    }
}

impl Model {
    /// A model is downloaded exactly when it has a local path.
    pub fn installed(&self) -> (r: bool)
        ensures
            r == self.path.is_some(),
    {
        self.path.is_some()
    }

    /// The short name shown in lists: the part of the id after its last `/`.
    pub fn title(&self) -> (r: &str)
        ensures
            r@ == after_last(self.id@, '/'),
    {
        let s = self.id.as_str();
        let start = after_last_start(s, '/');
        let n = s.unicode_len();
        s.substring_char(start, n)
    }
}

/// How strongly each speech model is preferred, by name fragment.
pub open spec fn speech_rank_rules() -> Seq<(&'static str, u64)> {
    seq![
        ("parakeet-tdt-0.6b-v3", 100),
        ("qwen3-asr-0.6b", 95),
        ("whisper-large-v3-turbo", 90),
        ("whisper-small", 70),
        ("whisper-tiny", 50),
    ]
}

fn speech_rank_table() -> (t: Vec<(&'static str, u64)>)
    ensures
        t@ == speech_rank_rules(),
{
    let t = vec![
        ("parakeet-tdt-0.6b-v3", 100),
        ("qwen3-asr-0.6b", 95),
        ("whisper-large-v3-turbo", 90),
        ("whisper-small", 70),
        ("whisper-tiny", 50),
    ];
    assert(t@ =~= speech_rank_rules());
    t
}

/// The preference score of a model of `kind` with lowercased id `lower_id`:
/// downloaded models first (+1000), then compact dictation-oriented families.
/// For rewriting, 8-bit is preferred on machines with at least 16 GiB.
pub open spec fn rank(lower_id: Seq<char>, kind: Kind, installed: bool, memory: Memory) -> nat {
    let base: nat = if kind == Kind::Rewrite {
        if has_suffix(lower_id, "8bit"@) && memory.total_bytes >= 16 * GIB {
            90
        } else if has_suffix(lower_id, "4bit"@) {
            80
        } else {
            30
        }
    } else {
        match first_rule(lower_id, speech_rank_rules()) {
            Some(v) => v as nat,
            None => 20,
        }
    };
    base + if installed {
        1000nat
    } else {
        0nat
    }
}

/// The preference score of model `m` when a model of `kind` is wanted.
pub open spec fn model_rank(m: Model, kind: Kind, memory: Memory) -> nat {
    rank(lowercase(m.id@), kind, m.path.is_some(), memory)
}

/// Model `m` is of `kind` and fits the memory budget.
pub open spec fn is_candidate(m: Model, kind: Kind, memory: Memory) -> bool {
    m.kind == kind && fits(m, memory)
}

/// `models[i]` is the recommendation: a candidate with the highest score, and the
/// last one among candidates with that score.
pub open spec fn is_recommendation(models: Seq<Model>, kind: Kind, memory: Memory, i: int) -> bool {
    &&& 0 <= i < models.len()
    &&& is_candidate(models[i], kind, memory)
    &&& forall|j: int|
        0 <= j < models.len() && is_candidate(#[trigger] models[j], kind, memory) ==> {
            &&& model_rank(models[j], kind, memory) <= model_rank(models[i], kind, memory)
            &&& j > i ==> model_rank(models[j], kind, memory) < model_rank(models[i], kind, memory)
        }
}

/// At most one model is the recommendation.
pub proof fn lemma_recommendation_unique(models: Seq<Model>, kind: Kind, memory: Memory, i: int, j: int)
    requires
        is_recommendation(models, kind, memory, i),
        is_recommendation(models, kind, memory, j),
    ensures
        i == j,
{
    if i < j {
        assert(is_candidate(models[j], kind, memory));
        assert(model_rank(models[j], kind, memory) < model_rank(models[i], kind, memory));
        assert(is_candidate(models[i], kind, memory));
    } else if j < i {
        assert(is_candidate(models[i], kind, memory));
        assert(is_candidate(models[j], kind, memory));
    }
}

/// Already downloaded models get preference: when a downloaded model of the kind
/// fits the budget, the recommendation is a downloaded model.
pub proof fn lemma_recommendation_prefers_downloaded(models: Seq<Model>, kind: Kind, memory: Memory, i: int, j: int)
    requires
        is_recommendation(models, kind, memory, i),
        0 <= j < models.len(),
        is_candidate(models[j], kind, memory),
        models[j].path is Some,
    ensures
        models[i].path is Some,
{
    reveal_with_fuel(first_rule, 6);
    assert(model_rank(models[j], kind, memory) >= 1000);
    assert(model_rank(models[j], kind, memory) <= model_rank(models[i], kind, memory));
}

/// The recommendation always fits the memory budget and is of the wanted kind.
pub proof fn lemma_recommendation_fits(models: Seq<Model>, kind: Kind, memory: Memory, i: int)
    requires
        is_recommendation(models, kind, memory, i),
    ensures
        models[i].kind == kind,
        model_units(models[i]) <= budget_units(memory),
{
}

/// The index of the recommended model, if any model fits.
pub open spec fn recommended_index(models: Seq<Model>, kind: Kind, memory: Memory) -> Option<int> {
    if exists|i: int| is_recommendation(models, kind, memory, i) {
        Some(choose|i: int| is_recommendation(models, kind, memory, i))
    } else {
        None
    }
}

/// The preference score, for `kind`, of a model whose lowercased id is
/// `lower_id`, downloaded or not.
pub fn rank_from_lower(lower_id: &str, kind: Kind, installed: bool, memory: Memory) -> (r: u64)
    ensures
        r == rank(lower_id@, kind, installed, memory),
{
    let lower = chars_of(lower_id);
    let base: u64 = if kind == Kind::Rewrite {
        if ends_with_str(&lower, "8bit") && memory.total_bytes >= 16 * GIB {
            90
        } else if ends_with_str(&lower, "4bit") {
            80
        } else {
            30
        }
    } else {
        match find_rule(&lower, &speech_rank_table()) {
            Some(v) => {
                assert(v <= 100) by {
                    reveal_with_fuel(first_rule, 6);
                }
                v
            },
            None => 20,
        }
    };
    if installed {
        base + 1000
    } else {
        base
    }
}

/// The preference score of `m` for `kind`.
fn rank_of(m: &Model, kind: Kind, memory: Memory) -> (r: u64)
    ensures
        r == model_rank(*m, kind, memory),
{
    let lower = to_lowercase(m.id.as_str());
    rank_from_lower(lower.as_str(), kind, m.installed(), memory)
}

/// The model to suggest for `kind` on this machine: among the models of that kind
/// whose estimated memory fits the budget, the one with the highest score (the
/// last such model when several share it); `None` when no model fits.
pub fn recommend(models: &[Model], kind: Kind, memory: Memory) -> (r: Option<&Model>)
    ensures
        r is None <==> forall|i: int| 0 <= i < models@.len() ==> !is_candidate(#[trigger] models@[i], kind, memory),
        r matches Some(m) ==> exists|i: int| is_recommendation(models@, kind, memory, i) && *m == models@[i],
        r is None <==> recommended_index(models@, kind, memory) is None,
        r matches Some(m) ==> recommended_index(models@, kind, memory) matches Some(i) && *m == models@[i],
{
    let budget = memory.budget();
    let mut best: Option<usize> = None;
    let mut best_rank: u64 = 0;
    let mut i: usize = 0;
    while i < models.len()
        invariant
            i <= models@.len(),
            budget == budget_units(memory),
            best is None ==> forall|j: int| 0 <= j < i ==> !is_candidate(#[trigger] models@[j], kind, memory),
            best matches Some(b) ==> {
                &&& b < i
                &&& is_candidate(models@[b as int], kind, memory)
                &&& best_rank == model_rank(models@[b as int], kind, memory)
                &&& forall|j: int| 0 <= j < i && is_candidate(#[trigger] models@[j], kind, memory) ==> {
                    &&& model_rank(models@[j], kind, memory) <= best_rank
                    &&& j > b ==> model_rank(models@[j], kind, memory) < best_rank
                }
            },
        decreases models@.len() - i,
    {
        let m = &models[i];
        if m.kind == kind && m.estimated_microbytes() <= budget {
            let r = rank_of(m, kind, memory);
            if best.is_none() || r >= best_rank {
                best = Some(i);
                best_rank = r;
            }
        }
        i += 1;
    }
    match best {
        Some(b) => {
            assert(is_recommendation(models@, kind, memory, b as int));
            proof {
                let c = choose|i: int| is_recommendation(models@, kind, memory, i);
                lemma_recommendation_unique(models@, kind, memory, b as int, c);
            }
            Some(&models[b])
        },
        None => {
            assert(!exists|i: int| is_recommendation(models@, kind, memory, i));
            None
        },
    }
}

/// `model_type` values of speech-recognition architectures.
pub open spec fn speech_types() -> Seq<&'static str> {
    seq![
        "parakeet",
        "qwen3_asr",
        "qwen2_audio",
        "voxtral",
        "voxtral_realtime",
        "cohere_asr",
        "fireredasr2",
        "sensevoice",
        "vibevoice_asr",
        "vibevoice",
        "glmasr",
        "glm_asr",
        "fun_asr_nano",
        "moonshine",
        "canary",
        "mms",
        "granite_speech",
        "granite_speech5_ctc",
        "granite_speech_nar",
        "moss_transcribe_diarize",
        "mega_asr",
    ]
}

/// Name fragments of MLX speech conversions whose configuration does not say so.
pub open spec fn mlx_speech_names() -> Seq<&'static str> {
    seq!["parakeet", "qwen3-asr", "sensevoice", "voxtral-mini", "canary", "moonshine"]
}

fn speech_type_table() -> (t: Vec<&'static str>)
    ensures
        t@ == speech_types(),
{
    let t = vec![
        "parakeet",
        "qwen3_asr",
        "qwen2_audio",
        "voxtral",
        "voxtral_realtime",
        "cohere_asr",
        "fireredasr2",
        "sensevoice",
        "vibevoice_asr",
        "vibevoice",
        "glmasr",
        "glm_asr",
        "fun_asr_nano",
        "moonshine",
        "canary",
        "mms",
        "granite_speech",
        "granite_speech5_ctc",
        "granite_speech_nar",
        "moss_transcribe_diarize",
        "mega_asr",
    ];
    assert(t@ =~= speech_types());
    t
}

fn mlx_speech_table() -> (t: Vec<&'static str>)
    ensures
        t@ == mlx_speech_names(),
{
    let t = vec!["parakeet", "qwen3-asr", "sensevoice", "voxtral-mini", "canary", "moonshine"];
    assert(t@ =~= mlx_speech_names());
    t
}

/// The configuration's `model_type` when it is a string, else empty.
pub open spec fn model_type_text(c: ConfigView) -> Seq<char> {
    match c.model_type {
        FieldView::Text(s) => s,
        _ => Seq::empty(),
    }
}

/// What a model with lowercased id `lower_id` and configuration `c` is for, if
/// the catalog recognises it: S1-mini checkpoints rewrite (OpenAudio/Fish models
/// that share the name do not); Whisper with mel filters, known speech
/// architectures, and MLX conversions of known speech families (not TTS or
/// aligners) transcribe.
pub open spec fn kind_of(lower_id: Seq<char>, c: ConfigView) -> Option<Kind> {
    if has_infix(lower_id, "s1-mini"@) && !has_infix(lower_id, "openaudio"@) && !has_infix(
        lower_id,
        "fish"@,
    ) {
        Some(Kind::Rewrite)
    } else if (model_type_text(c) == "whisper"@ && c.has_n_mels) || is_one_of(
        model_type_text(c),
        speech_types(),
    ) {
        Some(Kind::Speech)
    } else if has_infix(lower_id, "mlx"@) && any_infix(lower_id, mlx_speech_names()) && !has_infix(
        lower_id,
        "tts"@,
    ) && !has_infix(lower_id, "forcedaligner"@) {
        Some(Kind::Speech)
    } else {
        None
    }
}

/// What the model `id` with configuration `config` is for, if recognised.
pub fn kind_for(id: &str, config: &ModelConfig) -> (r: Option<Kind>)
    ensures
        r == kind_of(lowercase(id@), config@),
{
    let lower = to_lowercase(id);
    kind_of_lower(lower.as_str(), config)
}

/// What a model whose lowercased id is `lower_id` and whose configuration is
/// `config` is for, if recognised.
pub fn kind_of_lower(lower_id: &str, config: &ModelConfig) -> (r: Option<Kind>)
    ensures
        r == kind_of(lower_id@, config@),
{
    let lower = chars_of(lower_id);
    if contains_str(&lower, "s1-mini") && !contains_str(&lower, "openaudio") && !contains_str(
        &lower,
        "fish",
    ) {
        return Some(Kind::Rewrite);
    }
    let model_type: Vec<char> = match &config.model_type {
        Field::Text(t) => chars_of(t.as_str()),
        _ => Vec::new(),
    };
    assert(model_type@ == model_type_text(config@));
    if (chars_equal_str(&model_type, "whisper") && config.has_n_mels) || equals_any(
        &model_type,
        &speech_type_table(),
    ) {
        return Some(Kind::Speech);
    }
    if contains_str(&lower, "mlx") && contains_any(&lower, &mlx_speech_table()) && !contains_str(
        &lower,
        "tts",
    ) && !contains_str(&lower, "forcedaligner") {
        return Some(Kind::Speech);
    }
    None
}

/// A path component starts at index `i` of `p`.
pub open spec fn component_start(p: Seq<char>, i: int) -> bool {
    0 <= i <= p.len() && (i == 0 || p[i - 1] == '/')
}

/// A component of `p` that starts at `i` carries the Hugging Face cache marker.
pub open spec fn cache_marker_at(p: Seq<char>, i: int) -> bool {
    component_start(p, i) && occurs_at(p, "models--"@, i)
}

/// The first index `>= from` at which a component with the cache marker starts.
pub open spec fn marker_from(p: Seq<char>, from: int) -> Option<int>
    decreases p.len() - from,
{
    if from < 0 || from >= p.len() {
        None
    } else if cache_marker_at(p, from) {
        Some(from)
    } else {
        marker_from(p, from + 1)
    }
}

/// The end of the path component that starts at `i`.
pub open spec fn component_end(p: Seq<char>, i: int) -> int
    decreases p.len() - i,
{
    if i < 0 || i >= p.len() || p[i] == '/' {
        if i < 0 {
            0
        } else if i > p.len() {
            p.len() as int
        } else {
            i
        }
    } else {
        component_end(p, i + 1)
    }
}

/// The id of a model stored at `path`: for a Hugging Face cache directory
/// (`.../models--org--name/...`) the repository id `org/name`, else the path itself.
pub open spec fn model_id_text(path: Seq<char>) -> Seq<char> {
    match marker_from(path, 0) {
        Some(i) => replace_first(
            path.subrange(i + "models--"@.len(), component_end(path, i)),
            "--"@,
            "/"@,
        ),
        None => path,
    }
}

proof fn lemma_component_end(p: Seq<char>, i: int)
    requires
        0 <= i <= p.len(),
    ensures
        i <= component_end(p, i) <= p.len(),
    decreases p.len() - i,
{
    if i < p.len() && p[i] != '/' {
        lemma_component_end(p, i + 1);
    }
}

proof fn lemma_component_reaches(p: Seq<char>, i: int, j: int)
    requires
        0 <= i <= j <= p.len(),
        forall|k: int| i <= k < j ==> p[k] != '/',
    ensures
        j <= component_end(p, i),
    decreases j - i,
{
    lemma_component_end(p, i);
    if i < j {
        lemma_component_reaches(p, i + 1, j);
    }
}

/// The end of the component starting at `i`.
fn component_end_exec(p: &Vec<char>, i: usize) -> (e: usize)
    requires
        i <= p.len(),
    ensures
        e == component_end(p@, i as int),
        i <= e <= p.len(),
{
    let mut j: usize = i;
    proof {
        lemma_component_end(p@, i as int);
    }
    while j < p.len() && p[j] != '/'
        invariant
            i <= j <= p.len(),
            component_end(p@, i as int) == component_end(p@, j as int),
        decreases p.len() - j,
    {
        j += 1;
    }
    j
}

/// The catalog id of the model stored at `path`.
pub fn model_id(path: &str) -> (r: String)
    ensures
        r@ == model_id_text(path@),
{
    let p = chars_of(path);
    let marker = chars_of("models--");
    let mut i: usize = 0;
    while i < p.len()
        invariant
            i <= p.len(),
            marker@ == "models--"@,
            p@ == path@,
            marker_from(p@, 0) == marker_from(p@, i as int),
        decreases p.len() - i,
    {
        if (i == 0 || p[i - 1] == '/') && occurs_at_exec(&p, &marker, i) {
            let end = component_end_exec(&p, i);
            proof {
                lemma_component_end(p@, i as int);
                reveal_strlit("models--");
                assert forall|k: int| i <= k < i + marker@.len() implies p@[k] != '/' by {
                    assert(p@.subrange(i as int, i + marker@.len())[k - i] == marker@[k - i]);
                }
                lemma_component_reaches(p@, i as int, i + marker@.len());
                assert(cache_marker_at(p@, i as int));
            }
            let name = slice_chars(&p, i + marker.len(), end);
            let dashes = chars_of("--");
            let slash = chars_of("/");
            let id = replace_first_exec(&name, &dashes, &slash);
            assert(marker_from(p@, i as int) == Some(i as int));
            assert(name@ == p@.subrange(i + "models--"@.len(), component_end(p@, i as int)));
            assert(id@ == model_id_text(p@));
            return string_of(&id);
        }
        i += 1;
    }
    String::from_str(path)
}

/// One entry of a model directory, as the scanner saw it.
#[derive(Clone, Debug)]
pub struct DirEntry {
    /// The entry's file name.
    pub name: String,
    /// Whether the entry is (or links to) a regular file.
    pub is_file: bool,
    /// Its size in bytes (0 when its metadata cannot be read).
    pub len: u64,
    /// For a shard index (see [`is_shard_index`]): the bytes of the file, `None`
    /// when it cannot be read. Ignored for other entries.
    pub content: Option<Vec<u8>>,
}

/// What the scanner saw of a directory that holds a `config.json`.
#[derive(Clone, Debug)]
pub struct ModelDir {
    /// The directory's path.
    pub path: String,
    /// The bytes of `config.json`; `None` when it cannot be read.
    pub config: Option<Vec<u8>>,
    /// The directory's entries; `None` when it cannot be listed.
    pub entries: Option<Vec<DirEntry>>,
    /// Whether `tokenizer.json` is a regular file in it.
    pub has_tokenizer: bool,
}

/// A file name whose extension is `safetensors` or `npz` (`Path::extension`:
/// the text after the last dot, when something precedes that dot).
pub open spec fn is_weight_name(name: Seq<char>) -> bool {
    let ext = after_last(name, '.');
    &&& name.len() > ext.len() + 1
    &&& (ext == "safetensors"@ || ext == "npz"@)
}

/// A file name of a sharded checkpoint's index.
pub open spec fn is_shard_index_name(name: Seq<char>) -> bool {
    has_suffix(name, ".safetensors.index.json"@)
}

/// A regular file with content.
pub open spec fn valid_file(e: DirEntry) -> bool {
    e.is_file && e.len > 0
}

/// Some entry of `es` is named `name` and is a regular file with content.
pub open spec fn names_valid_file(es: Seq<DirEntry>, name: Seq<char>) -> bool {
    exists|k: int| 0 <= k < es.len() && (#[trigger] es[k]).name@ == name && valid_file(es[k])
}

/// An index lists at least one file, and every file it lists is present.
pub open spec fn index_complete(es: Seq<DirEntry>, files: Seq<Option<Seq<char>>>) -> bool {
    &&& exists|k: int| 0 <= k < files.len() && (#[trigger] files[k]) is Some
    &&& forall|k: int|
        0 <= k < files.len() && (#[trigger] files[k]) is Some ==> names_valid_file(
            es,
            files[k]->0,
        )
}

/// A shard index entry whose file was read and whose `weight_map` lists at
/// least one file, every one present.
pub open spec fn shard_index_complete(es: Seq<DirEntry>, e: DirEntry) -> bool {
    &&& e.content matches Some(text)
    &&& json_values_at(text@, "/weight_map"@) matches Some(files)
    &&& index_complete(es, files)
}

/// The weights of a directory are complete: there is at least one weight file,
/// every weight file has content, and every shard index lists only present files.
pub open spec fn weights_complete(es: Seq<DirEntry>) -> bool {
    &&& exists|k: int| 0 <= k < es.len() && is_weight_name((#[trigger] es[k]).name@)
    &&& forall|k: int| 0 <= k < es.len() && is_weight_name((#[trigger] es[k]).name@) ==> valid_file(es[k])
    &&& forall|k: int|
        0 <= k < es.len() && is_shard_index_name((#[trigger] es[k]).name@) ==> shard_index_complete(es, es[k])
}

/// The total size of the weight files among `es`.
pub open spec fn weight_total(es: Seq<DirEntry>) -> nat
    decreases es.len(),
{
    if es.len() == 0 {
        0
    } else {
        weight_total(es.drop_last()) + if is_weight_name(es.last().name@) {
            es.last().len as nat
        } else {
            0nat
        }
    }
}

/// The configuration of a scanned directory, read from its `config.json`.
pub open spec fn dir_config(d: ModelDir) -> ConfigView {
    config_of_text(d.config->0@)
}

/// A scanned directory holds a usable model: its `config.json` was read and
/// parses, the model is recognised, its weights are complete, and a rewriting
/// model has a tokenizer.
pub open spec fn is_usable(d: ModelDir) -> bool {
    &&& d.config matches Some(text) && json_parses(text@)
    &&& kind_of(lowercase(model_id_text(d.path@)), dir_config(d)) is Some
    &&& d.entries is Some
    &&& weights_complete(d.entries->0@)
    &&& kind_of(lowercase(model_id_text(d.path@)), dir_config(d)) == Some(Kind::Rewrite) ==> d.has_tokenizer
}

/// Whether `name` is a weight file name.
pub fn is_weight_file(name: &str) -> (r: bool)
    ensures
        r == is_weight_name(name@),
{
    let start = after_last_start(name, '.');
    let n = name.unicode_len();
    if start <= 1 {
        return false;
    }
    let ext = chars_of(name.substring_char(start, n));
    chars_equal_str(&ext, "safetensors") || chars_equal_str(&ext, "npz")
}

/// Whether `name` is the file name of a shard index.
pub fn is_shard_index(name: &str) -> (r: bool)
    ensures
        r == is_shard_index_name(name@),
{
    let c = chars_of(name);
    ends_with_str(&c, ".safetensors.index.json")
}

/// Whether some entry named `name` is a regular file with content.
fn has_valid_file(es: &Vec<DirEntry>, name: &String) -> (r: bool)
    ensures
        r == names_valid_file(es@, name@),
{
    let target = chars_of(name.as_str());
    let mut k: usize = 0;
    while k < es.len()
        invariant
            k <= es.len(),
            target@ == name@,
            forall|j: int| 0 <= j < k ==> !((#[trigger] es@[j]).name@ == name@ && valid_file(es@[j])),
        decreases es.len() - k,
    {
        let e = &es[k];
        if e.is_file && e.len > 0 {
            let c = chars_of(e.name.as_str());
            if crate::text::chars_equal(&c, &target) {
                return true;
            }
        }
        k += 1;
    }
    false
}

/// Whether a shard index lists at least one file and only present files.
fn index_is_complete(es: &Vec<DirEntry>, files: &Vec<Option<String>>) -> (r: bool)
    ensures
        r == index_complete(es@, names_view(files@)),
{
    let ghost fv = names_view(files@);
    let mut any = false;
    let mut k: usize = 0;
    while k < files.len()
        invariant
            k <= files.len(),
            fv == names_view(files@),
            fv.len() == files@.len(),
            any == exists|j: int| 0 <= j < k && (#[trigger] fv[j]) is Some,
            forall|j: int| 0 <= j < k && (#[trigger] fv[j]) is Some ==> names_valid_file(es@, fv[j]->0),
        decreases files.len() - k,
    {
        assert(fv[k as int] == match files@[k as int] {
            Some(s) => Some(s@),
            None => None::<Seq<char>>,
        });
        if let Some(name) = &files[k] {
            if !has_valid_file(es, name) {
                return false;
            }
            any = true;
        }
        k += 1;
    }
    any
}

/// The total size of the weight files, when the weights are complete.
fn complete_weights(es: &Vec<DirEntry>) -> (r: Option<u128>)
    ensures
        r is Some <==> weights_complete(es@),
        r matches Some(t) ==> t == weight_total(es@),
{
    let mut total: u128 = 0;
    let mut any = false;
    let mut k: usize = 0;
    while k < es.len()
        invariant
            k <= es.len(),
            total == weight_total(es@.subrange(0, k as int)),
            total <= k * 0xffff_ffff_ffff_ffffu128,
            k <= 0xffff_ffff_ffff_ffffu128,
            any == exists|j: int| 0 <= j < k && is_weight_name((#[trigger] es@[j]).name@),
            forall|j: int| 0 <= j < k && is_weight_name((#[trigger] es@[j]).name@) ==> valid_file(es@[j]),
            forall|j: int|
                0 <= j < k && is_shard_index_name((#[trigger] es@[j]).name@) ==> shard_index_complete(es@, es@[j]),
        decreases es.len() - k,
    {
        let e = &es[k];
        assert(es@.subrange(0, k + 1).drop_last() =~= es@.subrange(0, k as int));
        if is_weight_file(e.name.as_str()) {
            if !(e.is_file && e.len > 0) {
                return None;
            }
            any = true;
            total = total + e.len as u128;
        }
        if is_shard_index(e.name.as_str()) {
            match &e.content {
                Some(text) => match values_at(text.as_slice(), "/weight_map") {
                    Some(files) => {
                        if !index_is_complete(es, &files) {
                            return None;
                        }
                    },
                    None => {
                        return None;
                    },
                },
                None => {
                    return None;
                },
            }
        }
        assert(total <= (k + 1) * 0xffff_ffff_ffff_ffffu128) by (nonlinear_arith)
            requires
                total <= k * 0xffff_ffff_ffff_ffffu128 + 0xffff_ffff_ffff_ffffu128,
        ;
        k += 1;
    }
    assert(es@.subrange(0, k as int) =~= es@);
    if any {
        Some(total)
    } else {
        None
    }
}

/// The model held in a scanned directory, when the directory holds a usable one:
/// its id from the path, its kind, its path, the total size of its weight files,
/// and its quantization label.
pub fn inspect_model(dir: &ModelDir) -> (r: Option<Model>)
    requires
        dir.entries matches Some(es) ==> weight_total(es@) <= u64::MAX,
    ensures
        r is Some <==> is_usable(*dir),
        r matches Some(m) ==> {
            &&& m.id@ == model_id_text(dir.path@)
            &&& Some(m.kind) == kind_of(lowercase(m.id@), dir_config(*dir))
            &&& m.path matches Some(p) && p@ == dir.path@
            &&& m.bytes == weight_total(dir.entries->0@)
            &&& m.quant@ == quantization_label(lowercase(m.id@), dir_config(*dir))
        },
{
    let text = match &dir.config {
        Some(t) => t,
        None => return None,
    };
    let parsed = model_config_of(text.as_slice());
    let config = match &parsed {
        Some(c) => c,
        None => return None,
    };
    let id = model_id(dir.path.as_str());
    let kind = match kind_for(id.as_str(), config) {
        Some(k) => k,
        None => return None,
    };
    let entries = match &dir.entries {
        Some(es) => es,
        None => return None,
    };
    let total = match complete_weights(entries) {
        Some(t) => t,
        None => return None,
    };
    if kind == Kind::Rewrite && !dir.has_tokenizer {
        return None;
    }
    let quant = quantization(id.as_str(), config);
    Some(Model { quant, id, kind, path: Some(dir.path.clone()), bytes: total as u64 })
}

/// A partial sharded download never counts as a usable model: when a shard
/// index lists a file that is missing or empty, or the index cannot be read or
/// has no `weight_map` object, the directory is not usable.
pub proof fn lemma_missing_shard_unusable(d: ModelDir, k: int)
    requires
        d.entries is Some,
        0 <= k < d.entries->0@.len(),
        is_shard_index_name(d.entries->0@[k].name@),
        match d.entries->0@[k].content {
            None => true,
            Some(text) => match json_values_at(text@, "/weight_map"@) {
                None => true,
                Some(files) => exists|j: int|
                    0 <= j < files.len() && (#[trigger] files[j]) is Some && !names_valid_file(
                        d.entries->0@,
                        files[j]->0,
                    ),
            },
        },
    ensures
        !is_usable(d),
{
    let es = d.entries->0@;
    if weights_complete(es) {
        assert(is_shard_index_name(es[k].name@));
        assert(shard_index_complete(es, es[k]));
    }
}

/// A shard index that lists no file at all makes the directory unusable.
pub proof fn lemma_empty_index_unusable(d: ModelDir, k: int)
    requires
        d.entries is Some,
        0 <= k < d.entries->0@.len(),
        is_shard_index_name(d.entries->0@[k].name@),
        d.entries->0@[k].content matches Some(text) && json_values_at(text@, "/weight_map"@) matches Some(files) && forall|j: int|
            0 <= j < files.len() ==> (#[trigger] files[j]) is None,
    ensures
        !is_usable(d),
{
    let es = d.entries->0@;
    if weights_complete(es) {
        assert(is_shard_index_name(es[k].name@));
        assert(shard_index_complete(es, es[k]));
    }
}

/// A directory whose `config.json` cannot be read or is not JSON is not usable.
pub proof fn lemma_unparsed_config_unusable(d: ModelDir)
    requires
        !(d.config matches Some(text) && json_parses(text@)),
    ensures
        !is_usable(d),
{
}

/// A directory with configuration and metadata but no weight file is not usable.
pub proof fn lemma_metadata_only_unusable(d: ModelDir)
    requires
        d.entries is Some,
        forall|k: int| 0 <= k < d.entries->0@.len() ==> !is_weight_name((#[trigger] d.entries->0@[k]).name@),
    ensures
        !is_usable(d),
{
}

/// A weight file that is empty, or is not a regular file, makes the directory
/// unusable.
pub proof fn lemma_empty_weight_unusable(d: ModelDir, k: int)
    requires
        d.entries is Some,
        0 <= k < d.entries->0@.len(),
        is_weight_name(d.entries->0@[k].name@),
        !valid_file(d.entries->0@[k]),
    ensures
        !is_usable(d),
{
    let es = d.entries->0@;
    if weights_complete(es) {
        assert(is_weight_name(es[k].name@));
    }
}

/// A rewriting model without `tokenizer.json` is not usable.
pub proof fn lemma_rewrite_needs_tokenizer(d: ModelDir)
    requires
        d.config is Some,
        kind_of(lowercase(model_id_text(d.path@)), dir_config(d)) == Some(Kind::Rewrite),
        !d.has_tokenizer,
    ensures
        !is_usable(d),
{
}

/// `r` is the catalog listing of the available (not downloaded) model `a`: same id,
/// kind and size, no local path, and the quantization read from the id alone.
pub open spec fn lists_available(r: Model, a: Model) -> bool {
    &&& r.id == a.id
    &&& r.kind == a.kind
    &&& r.bytes == a.bytes
    &&& r.path is None
    &&& r.quant@ == quantization_label(lowercase(a.id@), no_config())
}

/// `a` is listed before `b`: downloaded models first, then by id.
pub open spec fn listed_before(a: Model, b: Model) -> bool {
    ||| (a.path is Some && b.path is None)
    ||| (a.path.is_some() == b.path.is_some() && text_less(a.id@, b.id@))
}

/// The models of `s` are in catalog order.
pub open spec fn catalog_ordered(s: Seq<Model>) -> bool {
    forall|i: int, j: int| 0 <= i < j < s.len() ==> listed_before(s[i], s[j])
}

/// Splitting id-sorted models into the downloaded ones and the others, each part
/// in id order, yields catalog order without changing the models by id.
proof fn lemma_partition(t0: Seq<Model>, f: Seq<Model>, g: Seq<Model>)
    requires
        sorted_by_id(t0),
        unique_ids(t0),
        sorted_by_id(f),
        sorted_by_id(g),
        forall|a: int| 0 <= a < f.len() ==> (#[trigger] f[a]).path is Some,
        forall|a: int| 0 <= a < g.len() ==> (#[trigger] g[a]).path is None,
        forall|a: int| 0 <= a < f.len() ==> t0.contains(#[trigger] f[a]),
        forall|a: int| 0 <= a < g.len() ==> t0.contains(#[trigger] g[a]),
        forall|q: int| 0 <= q < t0.len() ==> f.contains(#[trigger] t0[q]) || g.contains(t0[q]),
    ensures
        catalog_ordered(f + g),
        unique_ids(f + g),
        id_map(f + g) == id_map(t0),
{
    let rv = f + g;
    assert forall|x: int, y: int| 0 <= x < y < rv.len() implies listed_before(rv[x], rv[y]) by {
        if y < f.len() {
            assert(rv[x] == f[x] && rv[y] == f[y]);
        } else if x >= f.len() {
            assert(rv[x] == g[x - f.len()] && rv[y] == g[y - f.len()]);
        } else {
            assert(rv[x] == f[x] && rv[y] == g[y - f.len()]);
        }
    }
    lemma_sorted_unique(f);
    lemma_sorted_unique(g);
    assert forall|x: int, y: int| 0 <= x < rv.len() && 0 <= y < rv.len() && x != y implies rv[x].id@ != rv[y].id@ by {
        if x < f.len() && y >= f.len() {
            assert(rv[x] == f[x] && rv[y] == g[y - f.len()]);
            assert(t0.contains(f[x]) && t0.contains(g[y - f.len()]));
            let q1 = choose|q: int| 0 <= q < t0.len() && t0[q] == f[x];
            let q2 = choose|q: int| 0 <= q < t0.len() && t0[q] == g[y - f.len()];
        } else if y < f.len() && x >= f.len() {
            assert(rv[y] == f[y] && rv[x] == g[x - f.len()]);
            assert(t0.contains(f[y]) && t0.contains(g[x - f.len()]));
            let q1 = choose|q: int| 0 <= q < t0.len() && t0[q] == f[y];
            let q2 = choose|q: int| 0 <= q < t0.len() && t0[q] == g[x - f.len()];
        } else if x < f.len() {
            assert(rv[x] == f[x] && rv[y] == f[y]);
        } else {
            assert(rv[x] == g[x - f.len()] && rv[y] == g[y - f.len()]);
        }
    }
    assert forall|x: int| 0 <= x < rv.len() implies t0.contains(#[trigger] rv[x]) by {
        if x < f.len() {
            assert(rv[x] == f[x]);
            assert(t0.contains(f[x]));
        } else {
            assert(rv[x] == g[x - f.len()]);
            assert(t0.contains(g[x - f.len()]));
        }
    }
    assert forall|q: int| 0 <= q < t0.len() implies rv.contains(#[trigger] t0[q]) by {
        if f.contains(t0[q]) {
            let a = choose|a: int| 0 <= a < f.len() && f[a] == t0[q];
            assert(rv[a] == f[a]);
        } else {
            assert(g.contains(t0[q]));
            let a = choose|a: int| 0 <= a < g.len() && g[a] == t0[q];
            assert(rv[a + f.len()] == g[a]);
        }
    }
    lemma_same_models_same_map(rv, t0);
}

/// Combines the available catalog with the downloaded models into one list: one
/// entry per id; a downloaded model replaces the catalog entry with its id; catalog
/// entries are listed as not downloaded with the quantization their id shows; a
/// later entry with the same id replaces an earlier one; downloaded models come
/// first, each group in id order.
pub fn merge(available: Vec<Model>, installed: Vec<Model>) -> (r: Vec<Model>)
    ensures
        catalog_ordered(r@),
        unique_ids(r@),
        forall|k: Seq<char>| #![auto]
            id_map(r@).contains_key(k) <==> (id_map(available@).contains_key(k) || id_map(
                installed@,
            ).contains_key(k)),
        forall|k: Seq<char>| #![auto]
            id_map(installed@).contains_key(k) ==> id_map(r@)[k] == id_map(installed@)[k],
        forall|k: Seq<char>| #![auto]
            id_map(available@).contains_key(k) && !id_map(installed@).contains_key(k)
                ==> lists_available(id_map(r@)[k], id_map(available@)[k]),
{
    let ghost a0 = available@;
    let ghost i0 = installed@;
    let mut table = ModelTable::new();
    let mut avail = available;
    let ghost mut n: int = 0;
    assert(a0.skip(0) =~= a0);
    assert(a0.take(0) =~= Seq::<Model>::empty());
    while avail.len() > 0
        invariant
            0 <= n <= a0.len(),
            avail@ == a0.skip(n),
            forall|k: Seq<char>| #![auto]
                id_map(table@).contains_key(k) <==> id_map(a0.take(n)).contains_key(k),
            forall|k: Seq<char>| #![auto]
                id_map(a0.take(n)).contains_key(k) ==> lists_available(
                    id_map(table@)[k],
                    id_map(a0.take(n))[k],
                ),
        decreases avail.len(),
    {
        let mut m = avail.remove(0);
        let ghost orig = m;
        assert(orig == a0[n]);
        m.path = None;
        m.quant = quantization(m.id.as_str(), &ModelConfig::empty());
        assert(lists_available(m, orig));
        table.insert_found(m, true);
        proof {
            assert(a0.take(n + 1).drop_last() =~= a0.take(n));
            assert(a0.take(n + 1).last() == orig);
            assert(id_map(a0.take(n + 1)) == id_map(a0.take(n)).insert(orig.id@, orig));
            assert(avail@ =~= a0.skip(n + 1));
            n = n + 1;
        }
    }
    assert(a0.take(n) =~= a0);
    let mut inst = installed;
    let ghost mut j: int = 0;
    assert(i0.skip(0) =~= i0);
    assert(i0.take(0) =~= Seq::<Model>::empty());
    while inst.len() > 0
        invariant
            0 <= j <= i0.len(),
            inst@ == i0.skip(j),
            forall|k: Seq<char>| #![auto]
                id_map(table@).contains_key(k) <==> (id_map(a0).contains_key(k) || id_map(
                    i0.take(j),
                ).contains_key(k)),
            forall|k: Seq<char>| #![auto]
                id_map(i0.take(j)).contains_key(k) ==> id_map(table@)[k] == id_map(i0.take(j))[k],
            forall|k: Seq<char>| #![auto]
                id_map(a0).contains_key(k) && !id_map(i0.take(j)).contains_key(k) ==> lists_available(
                    id_map(table@)[k],
                    id_map(a0)[k],
                ),
        decreases inst.len(),
    {
        let m = inst.remove(0);
        assert(m == i0[j]);
        table.insert_found(m, true);
        proof {
            assert(i0.take(j + 1).drop_last() =~= i0.take(j));
            assert(i0.take(j + 1).last() == i0[j]);
            assert(id_map(i0.take(j + 1)) == id_map(i0.take(j)).insert(i0[j].id@, i0[j]));
            assert(inst@ =~= i0.skip(j + 1));
            j = j + 1;
        }
    }
    assert(i0.take(j) =~= i0);
    let ghost table_view = table@;
    let mut work = table.into_models();
    let ghost t0 = work@;
    proof {
        lemma_sorted_unique(t0);
    }
    let mut first: Vec<Model> = Vec::new();
    let mut rest: Vec<Model> = Vec::new();
    let ghost mut c: int = 0;
    assert(t0.skip(0) =~= t0);
    while work.len() > 0
        invariant
            0 <= c <= t0.len(),
            work@ == t0.skip(c),
            sorted_by_id(t0),
            unique_ids(t0),
            sorted_by_id(first@),
            sorted_by_id(rest@),
            forall|a: int| 0 <= a < first@.len() ==> (#[trigger] first@[a]).path is Some,
            forall|a: int| 0 <= a < rest@.len() ==> (#[trigger] rest@[a]).path is None,
            forall|a: int| 0 <= a < first@.len() ==> exists|q: int| 0 <= q < c && t0[q] == #[trigger] first@[a],
            forall|a: int| 0 <= a < rest@.len() ==> exists|q: int| 0 <= q < c && t0[q] == #[trigger] rest@[a],
            forall|q: int| 0 <= q < c ==> (exists|a: int| 0 <= a < first@.len() && first@[a] == #[trigger] t0[q])
                || (exists|a: int| 0 <= a < rest@.len() && rest@[a] == #[trigger] t0[q]),
        decreases work.len(),
    {
        let m = work.remove(0);
        assert(m == t0[c]);
        assert(work@ =~= t0.skip(c + 1));
        let ghost f0 = first@;
        let ghost g0 = rest@;
        if m.installed() {
            proof {
                assert forall|a: int| 0 <= a < f0.len() implies text_less(f0[a].id@, m.id@) by {
                    let q = choose|q: int| 0 <= q < c && t0[q] == #[trigger] f0[a];
                }
            }
            first.push(m);
            proof {
                assert(first@ == f0.push(t0[c]));
                assert forall|a: int| 0 <= a < first@.len() implies exists|q: int| 0 <= q < c + 1 && t0[q] == #[trigger] first@[a] by {
                    if a < f0.len() {
                        let q = choose|q: int| 0 <= q < c && t0[q] == #[trigger] f0[a];
                        assert(first@[a] == f0[a]);
                    } else {
                        assert(t0[c] == first@[a]);
                    }
                }
                assert forall|q: int| 0 <= q < c + 1 implies (exists|a: int| 0 <= a < first@.len() && first@[a] == #[trigger] t0[q])
                    || (exists|a: int| 0 <= a < rest@.len() && rest@[a] == #[trigger] t0[q]) by {
                    if q == c {
                        assert(first@[f0.len() as int] == t0[q]);
                    } else if exists|a: int| 0 <= a < f0.len() && f0[a] == #[trigger] t0[q] {
                        let a = choose|a: int| 0 <= a < f0.len() && f0[a] == #[trigger] t0[q];
                        assert(first@[a] == f0[a]);
                    } else {
                        let a = choose|a: int| 0 <= a < g0.len() && g0[a] == #[trigger] t0[q];
                        assert(rest@[a] == g0[a]);
                    }
                }
            }
        } else {
            proof {
                assert forall|a: int| 0 <= a < g0.len() implies text_less(g0[a].id@, m.id@) by {
                    let q = choose|q: int| 0 <= q < c && t0[q] == #[trigger] g0[a];
                }
            }
            rest.push(m);
            proof {
                assert(rest@ == g0.push(t0[c]));
                assert forall|a: int| 0 <= a < rest@.len() implies exists|q: int| 0 <= q < c + 1 && t0[q] == #[trigger] rest@[a] by {
                    if a < g0.len() {
                        let q = choose|q: int| 0 <= q < c && t0[q] == #[trigger] g0[a];
                        assert(rest@[a] == g0[a]);
                    } else {
                        assert(t0[c] == rest@[a]);
                    }
                }
                assert forall|q: int| 0 <= q < c + 1 implies (exists|a: int| 0 <= a < first@.len() && first@[a] == #[trigger] t0[q])
                    || (exists|a: int| 0 <= a < rest@.len() && rest@[a] == #[trigger] t0[q]) by {
                    if q == c {
                        assert(rest@[g0.len() as int] == t0[q]);
                    } else if exists|a: int| 0 <= a < g0.len() && g0[a] == #[trigger] t0[q] {
                        let a = choose|a: int| 0 <= a < g0.len() && g0[a] == #[trigger] t0[q];
                        assert(rest@[a] == g0[a]);
                    } else {
                        let a = choose|a: int| 0 <= a < f0.len() && f0[a] == #[trigger] t0[q];
                        assert(first@[a] == f0[a]);
                    }
                }
            }
        }
        proof {
            c = c + 1;
        }
    }
    let ghost f = first@;
    let ghost g = rest@;
    first.append(&mut rest);
    let r = first;
    proof {
        assert(r@ == f + g);
        assert(c == t0.len());
        assert forall|a: int| 0 <= a < f.len() implies t0.contains(#[trigger] f[a]) by {
            let q = choose|q: int| 0 <= q < c && t0[q] == #[trigger] f[a];
        }
        assert forall|a: int| 0 <= a < g.len() implies t0.contains(#[trigger] g[a]) by {
            let q = choose|q: int| 0 <= q < c && t0[q] == #[trigger] g[a];
        }
        assert forall|q: int| 0 <= q < t0.len() implies f.contains(#[trigger] t0[q]) || g.contains(t0[q]) by {
            if exists|a: int| 0 <= a < f.len() && f[a] == #[trigger] t0[q] {
                let a = choose|a: int| 0 <= a < f.len() && f[a] == #[trigger] t0[q];
            } else {
                let a = choose|a: int| 0 <= a < g.len() && g[a] == #[trigger] t0[q];
            }
        }
        lemma_partition(t0, f, g);
    }
    r
}

/// Whether the snapshot directory named `name` is the revision that the
/// repository's `refs/main` (content `refs_main`) points to.
pub open spec fn is_main_snapshot(name: Option<Seq<char>>, refs_main: Option<Seq<char>>) -> bool {
    match (name, refs_main) {
        (Some(n), Some(r)) => n == trim(r),
        _ => false,
    }
}

/// Whether a snapshot directory is the one `refs/main` points to: the directory
/// has a name, `refs/main` could be read, and its trimmed content is that name.
pub fn snapshot_preferred(name: Option<&String>, refs_main: Option<&String>) -> (r: bool)
    ensures
        r == is_main_snapshot(
            match name {
                Some(n) => Some(n@),
                None => None,
            },
            match refs_main {
                Some(t) => Some(t@),
                None => None,
            },
        ),
{
    match (name, refs_main) {
        (Some(n), Some(t)) => {
            let tc = chars_of(t.as_str());
            let trimmed = trim_chars(&tc);
            let nc = chars_of(n.as_str());
            crate::text::chars_equal(&nc, &trimmed)
        },
        _ => false,
    }
}

/// Directory names the scanner does not descend into.
pub open spec fn skipped_dirs() -> Seq<&'static str> {
    seq!["blobs", ".git", ".venv", "target", "node_modules", ".locks"]
}

/// Whether the scanner skips a directory named `name` (blob stores, version
/// control, virtual environments, build output, package caches, lock folders).
pub fn skip_directory(name: &str) -> (r: bool)
    ensures
        r == is_one_of(name@, skipped_dirs()),
{
    let t = vec!["blobs", ".git", ".venv", "target", "node_modules", ".locks"];
    assert(t@ =~= skipped_dirs());
    equals_any(&chars_of(name), &t)
}

/// What the cache locations are derived from: the home directory and the
/// Hugging Face environment settings, each `None` when unset.
pub struct CacheEnv {
    pub home: String,
    pub hf_home: Option<String>,
    pub xdg_cache_home: Option<String>,
    pub hf_hub_cache: Option<String>,
    pub huggingface_hub_cache: Option<String>,
}

/// The text of a set value, or `fallback` when it is unset.
pub open spec fn or_else(v: Option<String>, fallback: Seq<char>) -> Seq<char> {
    match v {
        Some(s) => s@,
        None => fallback,
    }
}

/// The Hugging Face home: `HF_HOME`, else `huggingface` under `XDG_CACHE_HOME`,
/// else under `~/.cache`.
pub open spec fn hf_home_dir(env: CacheEnv) -> Seq<char> {
    or_else(
        env.hf_home,
        join(or_else(env.xdg_cache_home, join(env.home@, ".cache"@)), "huggingface"@),
    )
}

/// The hub cache: `HF_HUB_CACHE`, else `HUGGINGFACE_HUB_CACHE`, else `hub`
/// under the Hugging Face home.
pub open spec fn hub_dir(env: CacheEnv) -> Seq<char> {
    or_else(env.hf_hub_cache, or_else(env.huggingface_hub_cache, join(hf_home_dir(env), "hub"@)))
}

/// The places searched for models before sorting: the hub cache, the default
/// hub cache under home, LM Studio's models, `~/Models`, then `extra`.
pub open spec fn root_candidates(env: CacheEnv, extra: Seq<String>) -> Seq<Seq<char>> {
    seq![
        hub_dir(env),
        join(env.home@, ".cache/huggingface/hub"@),
        join(env.home@, ".lmstudio/models"@),
        join(env.home@, "Models"@),
    ] + extra.map_values(|s: String| s@)
}

fn text_or(v: &Option<String>, fallback: String) -> (r: String)
    ensures
        r@ == or_else(*v, fallback@),
{
    match v {
        Some(s) => s.clone(),
        None => fallback,
    }
}

/// The directories searched for models, sorted by path and without repeats.
pub fn cache_roots(env: &CacheEnv, extra: &Vec<String>) -> (r: Vec<String>)
    ensures
        sorted_unique_paths(root_candidates(*env, extra@), r@),
{
    let home = env.home.as_str();
    let xdg = text_or(&env.xdg_cache_home, join_exec(home, ".cache"));
    let hf_home = text_or(&env.hf_home, join_exec(xdg.as_str(), "huggingface"));
    let hub = text_or(
        &env.hf_hub_cache,
        text_or(&env.huggingface_hub_cache, join_exec(hf_home.as_str(), "hub")),
    );
    let mut cands: Vec<String> = Vec::new();
    cands.push(hub);
    cands.push(join_exec(home, ".cache/huggingface/hub"));
    cands.push(join_exec(home, ".lmstudio/models"));
    cands.push(join_exec(home, "Models"));
    let mut i: usize = 0;
    while i < extra.len()
        invariant
            i <= extra@.len(),
            cands@.map_values(|s: String| s@) =~= root_candidates(*env, extra@).take(4 + i),
        decreases extra@.len() - i,
    {
        let x = extra[i].clone();
        let ghost before = cands@.map_values(|s: String| s@);
        cands.push(x);
        assert(root_candidates(*env, extra@)[4 + i] == extra@[i as int]@);
        assert(cands@.map_values(|s: String| s@) =~= before.push(x@));
        i += 1;
    }
    assert(root_candidates(*env, extra@).take(4 + extra@.len() as int) =~= root_candidates(*env, extra@));
    sort_unique_paths(&cands)
}

/// `models[i]` is the first downloaded model with id `id`.
pub open spec fn first_installed(models: Seq<Model>, id: Seq<char>, i: int) -> bool {
    &&& 0 <= i < models.len()
    &&& models[i].id@ == id
    &&& models[i].path is Some
    &&& forall|j: int| 0 <= j < i ==> !((#[trigger] models[j]).id@ == id && models[j].path is Some)
}

/// Some downloaded model has id `id`.
pub open spec fn has_installed(models: Seq<Model>, id: Seq<char>) -> bool {
    exists|i: int| 0 <= i < models.len() && (#[trigger] models[i]).id@ == id && models[i].path is Some
}

/// The first downloaded model whose id is `id`.
pub fn find_selected<'a>(models: &'a [Model], id: &str) -> (r: Option<&'a Model>)
    ensures
        r is Some <==> has_installed(models@, id@),
        r matches Some(m) ==> exists|i: int| first_installed(models@, id@, i) && *m == models@[i],
{
    let target = chars_of(id);
    let mut i: usize = 0;
    while i < models.len()
        invariant
            i <= models@.len(),
            target@ == id@,
            forall|j: int| 0 <= j < i ==> !((#[trigger] models@[j]).id@ == id@ && models@[j].path is Some),
        decreases models@.len() - i,
    {
        let m = &models[i];
        if m.installed() && crate::text::chars_equal(&chars_of(m.id.as_str()), &target) {
            assert(first_installed(models@, id@, i as int));
            return Some(m);
        }
        i += 1;
    }
    None
}

/// The model to use for `kind` when `current` is the configured id: the first
/// downloaded model with that id, else the recommendation when it is downloaded.
pub open spec fn picks(models: Seq<Model>, kind: Kind, current: Seq<char>, memory: Memory, m: Option<Model>) -> bool {
    if has_installed(models, current) {
        exists|i: int| first_installed(models, current, i) && m == Some(models[i])
    } else {
        match recommended_index(models, kind, memory) {
            Some(i) => if models[i].path is Some {
                m == Some(models[i])
            } else {
                m is None
            },
            None => m is None,
        }
    }
}

/// The model to use for `kind`: the configured one when it is downloaded, else
/// the recommendation for this machine when that is downloaded, else none.
pub fn pick_model<'a>(models: &'a [Model], kind: Kind, current: &str, memory: Memory) -> (r: Option<&'a Model>)
    ensures
        picks(
            models@,
            kind,
            current@,
            memory,
            match r {
                Some(m) => Some(*m),
                None => None,
            },
        ),
{
    match find_selected(models, current) {
        Some(m) => Some(m),
        None => match recommend(models, kind, memory) {
            Some(m) => {
                if m.installed() {
                    Some(m)
                } else {
                    None
                }
            },
            None => None,
        },
    }
}

/// Model `m` is shown in the library for `kind` under the search `query`
/// (case-insensitive substring of the id), and only downloaded ones when asked.
pub open spec fn library_shows(m: Model, kind: Kind, downloaded_only: bool, query: Seq<char>) -> bool {
    &&& m.kind == kind
    &&& (!downloaded_only || m.path is Some)
    &&& has_infix(lowercase(m.id@), lowercase(query))
}

/// Whether the library shows `m` for `kind`, given its lowercased id `lower_id`
/// and the lowercased search `lower_query`.
pub fn shown_in_library(m: &Model, kind: Kind, downloaded_only: bool, lower_id: &str, lower_query: &str) -> (r: bool)
    ensures
        r == (m.kind == kind && (!downloaded_only || m.path is Some) && has_infix(lower_id@, lower_query@)),
{
    m.kind == kind && (!downloaded_only || m.installed()) && crate::text::contains_chars(
        &chars_of(lower_id),
        &chars_of(lower_query),
    )
}

/// The indices of the models the library shows, in catalog order.
pub fn library_view(models: &[Model], kind: Kind, downloaded_only: bool, query: &str) -> (r: Vec<usize>)
    ensures
        forall|a: int| 0 <= a < r@.len() ==> (#[trigger] r@[a]) < models@.len() && library_shows(models@[r@[a] as int], kind, downloaded_only, query@),
        forall|i: int| 0 <= i < models@.len() && library_shows(#[trigger] models@[i], kind, downloaded_only, query@) ==> r@.contains(i as usize),
        forall|a: int, b: int| 0 <= a < b < r@.len() ==> r@[a] < r@[b],
{
    let q = to_lowercase(query);
    let mut r: Vec<usize> = Vec::new();
    let mut i: usize = 0;
    while i < models.len()
        invariant
            i <= models@.len(),
            q@ == lowercase(query@),
            forall|a: int| 0 <= a < r@.len() ==> (#[trigger] r@[a]) < i && library_shows(models@[r@[a] as int], kind, downloaded_only, query@),
            forall|j: int| 0 <= j < i && library_shows(#[trigger] models@[j], kind, downloaded_only, query@) ==> r@.contains(j as usize),
            forall|a: int, b: int| 0 <= a < b < r@.len() ==> r@[a] < r@[b],
        decreases models@.len() - i,
    {
        let m = &models[i];
        let lower = to_lowercase(m.id.as_str());
        if shown_in_library(m, kind, downloaded_only, lower.as_str(), q.as_str()) {
            {
                let ghost prev = r@;
                r.push(i);
                proof {
                    assert(r@ == prev.push(i));
                    assert forall|j: int| 0 <= j < i + 1 && library_shows(#[trigger] models@[j], kind, downloaded_only, query@) implies r@.contains(j as usize) by {
                        if j < i {
                            assert(prev.contains(j as usize));
                            let a = choose|a: int| 0 <= a < prev.len() && prev[a] == j as usize;
                            assert(r@[a] == j as usize);
                        } else {
                            assert(r@[r@.len() - 1] == j as usize);
                        }
                    }
                }
            }
        }
        i += 1;
    }
    r
}

/// The indices of the downloaded models of `kind`, in catalog order (the choices
/// of a model picker).
pub fn downloaded_of_kind(models: &[Model], kind: Kind) -> (r: Vec<usize>)
    ensures
        forall|a: int| 0 <= a < r@.len() ==> (#[trigger] r@[a]) < models@.len() && models@[r@[a] as int].kind == kind && models@[r@[a] as int].path is Some,
        forall|i: int| 0 <= i < models@.len() && (#[trigger] models@[i]).kind == kind && models@[i].path is Some ==> r@.contains(i as usize),
        forall|a: int, b: int| 0 <= a < b < r@.len() ==> r@[a] < r@[b],
{
    let mut r: Vec<usize> = Vec::new();
    let mut i: usize = 0;
    while i < models.len()
        invariant
            i <= models@.len(),
            forall|a: int| 0 <= a < r@.len() ==> (#[trigger] r@[a]) < i && models@[r@[a] as int].kind == kind && models@[r@[a] as int].path is Some,
            forall|j: int| 0 <= j < i && (#[trigger] models@[j]).kind == kind && models@[j].path is Some ==> r@.contains(j as usize),
            forall|a: int, b: int| 0 <= a < b < r@.len() ==> r@[a] < r@[b],
        decreases models@.len() - i,
    {
        if models[i].kind == kind && models[i].installed() {
            let ghost prev = r@;
            r.push(i);
            proof {
                assert(r@ == prev.push(i));
                assert forall|j: int| 0 <= j < i + 1 && (#[trigger] models@[j]).kind == kind && models@[j].path is Some implies r@.contains(j as usize) by {
                    if j < i {
                        assert(prev.contains(j as usize));
                        let a = choose|a: int| 0 <= a < prev.len() && prev[a] == j as usize;
                        assert(r@[a] == j as usize);
                    } else {
                        assert(r@[r@.len() - 1] == j as usize);
                    }
                }
            }
        }
        i += 1;
    }
    r
}

/// Sixteen GiB in bytes: from this much physical memory on, 8-bit rewriting
/// variants are preferred.
pub open spec fn sixteen_gib() -> u64 {
    17179869184
}

/// How rewriting models are scored: an id ending in `8bit` scores 90 on a
/// machine with at least 16 GiB and 30 (like an unlabelled one) below that; an id
/// ending in `4bit` scores 80; any other 30; a downloaded model 1000 more.
pub proof fn lemma_rewrite_rank(lower_id: Seq<char>, installed: bool, memory: Memory)
    ensures
        rank(lower_id, Kind::Rewrite, installed, memory) == (if has_suffix(lower_id, "8bit"@)
            && memory.total_bytes >= sixteen_gib() {
            90nat
        } else if !has_suffix(lower_id, "8bit"@) && has_suffix(lower_id, "4bit"@) {
            80nat
        } else {
            30nat
        }) + (if installed {
            1000nat
        } else {
            0nat
        }),
{
    if has_suffix(lower_id, "8bit"@) && has_suffix(lower_id, "4bit"@) {
        reveal_strlit("8bit");
        reveal_strlit("4bit");
        let n = lower_id.len() as int;
        assert(lower_id.subrange(n - 4, n)[0] == "8bit"@[0]);
        assert(lower_id.subrange(n - 4, n)[0] == "4bit"@[0]);
    }
}

/// Below 16 GiB of physical memory, a not-downloaded 8-bit rewriting variant is
/// never recommended while a not-downloaded 4-bit one fits the budget.
pub proof fn lemma_small_machines_prefer_4bit(models: Seq<Model>, memory: Memory, i: int, j: int)
    requires
        memory.total_bytes < sixteen_gib(),
        is_recommendation(models, Kind::Rewrite, memory, i),
        0 <= j < models.len(),
        is_candidate(models[j], Kind::Rewrite, memory),
        models[j].path is None,
        has_suffix(lowercase(models[j].id@), "4bit"@),
    ensures
        !(has_suffix(lowercase(models[i].id@), "8bit"@) && models[i].path is None),
{
    lemma_rewrite_rank(lowercase(models[i].id@), models[i].path is Some, memory);
    lemma_rewrite_rank(lowercase(models[j].id@), false, memory);
    assert(model_rank(models[j], Kind::Rewrite, memory) <= model_rank(models[i], Kind::Rewrite, memory));
}

/// How speech models are scored, by the first family named in the id:
/// Parakeet TDT 0.6B v3 100, Qwen3-ASR 0.6B 95, Whisper large-v3 turbo 90,
/// Whisper small 70, Whisper tiny 50, any other 20; a downloaded model 1000 more.
pub proof fn lemma_speech_rank(lower_id: Seq<char>, installed: bool, memory: Memory)
    ensures
        rank(lower_id, Kind::Speech, installed, memory) == (if has_infix(lower_id, "parakeet-tdt-0.6b-v3"@) {
            100nat
        } else if has_infix(lower_id, "qwen3-asr-0.6b"@) {
            95nat
        } else if has_infix(lower_id, "whisper-large-v3-turbo"@) {
            90nat
        } else if has_infix(lower_id, "whisper-small"@) {
            70nat
        } else if has_infix(lower_id, "whisper-tiny"@) {
            50nat
        } else {
            20nat
        }) + (if installed {
            1000nat
        } else {
            0nat
        }),
{
    reveal_with_fuel(first_rule, 6);
}

/// The parameter count estimated from a lowercased id, in hundredths of a
/// billion: S1-mini 0.6B; Whisper by its size (tiny 0.04B, base 0.08B, small
/// 0.25B, medium 0.77B, turbo 0.81B, else 1.55B); other models by the first
/// size named (110M, 0.6B, 1.1B, 1.5B, 2.5B, 3B, 4B, 7B, 9B or VibeVoice 9B),
/// else 4B.
pub proof fn lemma_param_estimate(l: Seq<char>)
    ensures
        param_centis(l) == (if has_infix(l, "s1-mini"@) {
            60u64
        } else if has_infix(l, "whisper"@) {
            if has_infix(l, "tiny"@) {
                4u64
            } else if has_infix(l, "base"@) {
                8u64
            } else if has_infix(l, "small"@) {
                25u64
            } else if has_infix(l, "medium"@) {
                77u64
            } else if has_infix(l, "turbo"@) {
                81u64
            } else {
                155u64
            }
        } else if has_infix(l, "110m"@) {
            11u64
        } else if has_infix(l, "0.6b"@) {
            60u64
        } else if has_infix(l, "1.1b"@) {
            110u64
        } else if has_infix(l, "1.5b"@) {
            150u64
        } else if has_infix(l, "2.5b"@) {
            250u64
        } else if has_infix(l, "3b"@) {
            300u64
        } else if has_infix(l, "4b"@) {
            400u64
        } else if has_infix(l, "7b"@) {
            700u64
        } else if has_infix(l, "9b"@) || has_infix(l, "vibevoice"@) {
            900u64
        } else {
            400u64
        }),
{
    reveal_with_fuel(first_rule, 11);
}

/// Bytes per parameter by quantization label, in hundredths: 2-bit 0.35,
/// 3-bit 0.45, 4-bit/MXFP4/NVFP4 0.6, 6-bit 0.85, 8-bit/MXFP8 1.1, FP32 4,
/// anything else 2.
pub proof fn lemma_bytes_per_param(l: Seq<char>)
    ensures
        ({
            let q = quantization_label(l, no_config());
            byte_centis(l) == (if q == "2-bit"@ {
                35u64
            } else if q == "3-bit"@ {
                45u64
            } else if q == "4-bit"@ || q == "MXFP4"@ || q == "NVFP4"@ {
                60u64
            } else if q == "6-bit"@ {
                85u64
            } else if q == "8-bit"@ || q == "MXFP8"@ {
                110u64
            } else if q == "FP32"@ {
                400u64
            } else {
                200u64
            })
        }),
{
    reveal_with_fuel(first_equal, 10);
}

/// Without quantization bits in the configuration, the label is read off the
/// lowercased id, first fragment first, else the configuration's storage type.
pub proof fn lemma_quantization_from_name(l: Seq<char>, c: ConfigView)
    requires
        config_bits(c) is None,
    ensures
        quantization_label(l, c) == (if has_infix(l, "mxfp4"@) {
            "MXFP4"@
        } else if has_infix(l, "mxfp8"@) {
            "MXFP8"@
        } else if has_infix(l, "nvfp4"@) {
            "NVFP4"@
        } else if has_infix(l, "2bit"@) {
            "2-bit"@
        } else if has_infix(l, "3bit"@) {
            "3-bit"@
        } else if has_infix(l, "4bit"@) {
            "4-bit"@
        } else if has_infix(l, "6bit"@) {
            "6-bit"@
        } else if has_infix(l, "8bit"@) {
            "8-bit"@
        } else if has_infix(l, "-q4"@) {
            "4-bit"@
        } else if has_infix(l, "-q8"@) {
            "8-bit"@
        } else if has_infix(l, "bf16"@) {
            "BF16"@
        } else if has_infix(l, "fp16"@) {
            "FP16"@
        } else if has_infix(l, "fp32"@) {
            "FP32"@
        } else {
            config_dtype(c)
        }),
{
    reveal_with_fuel(first_rule, 14);
}

/// Quantization bits in the configuration decide the label: `n-bit`.
pub proof fn lemma_quantization_from_config(l: Seq<char>, c: ConfigView, n: u64)
    requires
        c.quantization_bits == FieldView::Unsigned(n) || (c.quantization_bits == FieldView::Absent
            && c.quantization_config_bits == FieldView::Unsigned(n)),
    ensures
        quantization_label(l, c) == decimal(n as nat) + "-bit"@,
{
}

/// An id naming S1-mini (and not OpenAudio or Fish) is a rewriting model.
pub proof fn lemma_s1_mini_rewrites(l: Seq<char>, c: ConfigView)
    requires
        has_infix(l, "s1-mini"@),
        !has_infix(l, "openaudio"@),
        !has_infix(l, "fish"@),
    ensures
        kind_of(l, c) == Some(Kind::Rewrite),
{
}

/// A configuration naming a speech recognition architecture makes any model
/// that is not an S1-mini rewrite a speech model.
pub proof fn lemma_speech_architectures(l: Seq<char>, c: ConfigView, t: Seq<char>)
    requires
        !(has_infix(l, "s1-mini"@) && !has_infix(l, "openaudio"@) && !has_infix(l, "fish"@)),
        c.model_type == FieldView::Text(t),
        t == "parakeet"@ || t == "qwen3_asr"@ || t == "qwen2_audio"@ || t == "voxtral"@ || t
            == "voxtral_realtime"@ || t == "cohere_asr"@ || t == "fireredasr2"@ || t == "sensevoice"@ || t
            == "vibevoice_asr"@ || t == "vibevoice"@ || t == "glmasr"@ || t == "glm_asr"@ || t
            == "fun_asr_nano"@ || t == "moonshine"@ || t == "canary"@ || t == "mms"@ || t
            == "granite_speech"@ || t == "granite_speech5_ctc"@ || t == "granite_speech_nar"@ || t
            == "moss_transcribe_diarize"@ || t == "mega_asr"@,
    ensures
        kind_of(l, c) == Some(Kind::Speech),
{
    let w = speech_types();
    let k: int = if t == "parakeet"@ {
        0
    } else if t == "qwen3_asr"@ {
        1
    } else if t == "qwen2_audio"@ {
        2
    } else if t == "voxtral"@ {
        3
    } else if t == "voxtral_realtime"@ {
        4
    } else if t == "cohere_asr"@ {
        5
    } else if t == "fireredasr2"@ {
        6
    } else if t == "sensevoice"@ {
        7
    } else if t == "vibevoice_asr"@ {
        8
    } else if t == "vibevoice"@ {
        9
    } else if t == "glmasr"@ {
        10
    } else if t == "glm_asr"@ {
        11
    } else if t == "fun_asr_nano"@ {
        12
    } else if t == "moonshine"@ {
        13
    } else if t == "canary"@ {
        14
    } else if t == "mms"@ {
        15
    } else if t == "granite_speech"@ {
        16
    } else if t == "granite_speech5_ctc"@ {
        17
    } else if t == "granite_speech_nar"@ {
        18
    } else if t == "moss_transcribe_diarize"@ {
        19
    } else {
        20
    };
    assert(t == w[k]@);
    assert(model_type_text(c) == t);
    assert(is_one_of(t, w));
}

/// Whisper with mel filters in its configuration is a speech model.
pub proof fn lemma_whisper_with_mels(l: Seq<char>, c: ConfigView)
    requires
        !(has_infix(l, "s1-mini"@) && !has_infix(l, "openaudio"@) && !has_infix(l, "fish"@)),
        c.model_type == FieldView::Text("whisper"@),
        c.has_n_mels,
    ensures
        kind_of(l, c) == Some(Kind::Speech),
{
}

/// An MLX conversion named after a known speech family (Parakeet, Qwen3-ASR,
/// SenseVoice, Voxtral Mini, Canary, Moonshine) that is not TTS or a forced
/// aligner is a speech model, whatever its configuration says.
pub proof fn lemma_mlx_speech_names(l: Seq<char>, c: ConfigView, f: Seq<char>)
    requires
        !(has_infix(l, "s1-mini"@) && !has_infix(l, "openaudio"@) && !has_infix(l, "fish"@)),
        has_infix(l, "mlx"@),
        f == "parakeet"@ || f == "qwen3-asr"@ || f == "sensevoice"@ || f == "voxtral-mini"@ || f == "canary"@
            || f == "moonshine"@,
        has_infix(l, f),
        !has_infix(l, "tts"@),
        !has_infix(l, "forcedaligner"@),
    ensures
        kind_of(l, c) == Some(Kind::Speech),
{
    let w = mlx_speech_names();
    let k: int = if f == "parakeet"@ {
        0
    } else if f == "qwen3-asr"@ {
        1
    } else if f == "sensevoice"@ {
        2
    } else if f == "voxtral-mini"@ {
        3
    } else if f == "canary"@ {
        4
    } else {
        5
    };
    assert(f == w[k]@);
    assert(any_infix(l, w));
}

/// The scanner skips exactly the directories named blobs, .git, .venv, target,
/// node_modules and .locks.
pub proof fn lemma_skipped_directories(n: Seq<char>)
    ensures
        is_one_of(n, skipped_dirs()) <==> (n == "blobs"@ || n == ".git"@ || n == ".venv"@ || n == "target"@ || n
            == "node_modules"@ || n == ".locks"@),
{
    let w = skipped_dirs();
    if n == "blobs"@ {
        assert(n == w[0]@);
    } else if n == ".git"@ {
        assert(n == w[1]@);
    } else if n == ".venv"@ {
        assert(n == w[2]@);
    } else if n == "target"@ {
        assert(n == w[3]@);
    } else if n == "node_modules"@ {
        assert(n == w[4]@);
    } else if n == ".locks"@ {
        assert(n == w[5]@);
    } else if is_one_of(n, w) {
        let k = choose|k: int| 0 <= k < w.len() && n == #[trigger] w[k]@;
        assert(k == 0 || k == 1 || k == 2 || k == 3 || k == 4 || k == 5);
    }
}

/// A Whisper configuration without mel filters (a PyTorch checkpoint) does not
/// make a model recognised, unless its id names S1-mini or an MLX conversion.
pub proof fn lemma_pytorch_whisper_ignored(l: Seq<char>, c: ConfigView)
    requires
        !has_infix(l, "s1-mini"@),
        !has_infix(l, "mlx"@),
        c.model_type == FieldView::Text("whisper"@),
        !c.has_n_mels,
    ensures
        kind_of(l, c) is None,
{
    let w = speech_types();
    if is_one_of("whisper"@, w) {
        let k = choose|k: int| 0 <= k < w.len() && "whisper"@ == #[trigger] w[k]@;
        reveal_strlit("whisper");
        reveal_strlit("parakeet");
        reveal_strlit("qwen3_asr");
        reveal_strlit("qwen2_audio");
        reveal_strlit("voxtral");
        reveal_strlit("voxtral_realtime");
        reveal_strlit("cohere_asr");
        reveal_strlit("fireredasr2");
        reveal_strlit("sensevoice");
        reveal_strlit("vibevoice_asr");
        reveal_strlit("vibevoice");
        reveal_strlit("glmasr");
        reveal_strlit("glm_asr");
        reveal_strlit("fun_asr_nano");
        reveal_strlit("moonshine");
        reveal_strlit("canary");
        reveal_strlit("mms");
        reveal_strlit("granite_speech");
        reveal_strlit("granite_speech5_ctc");
        reveal_strlit("granite_speech_nar");
        reveal_strlit("moss_transcribe_diarize");
        reveal_strlit("mega_asr");
        assert(w[k]@[0] == "whisper"@[0]);
        assert(w[k]@.len() == 7);
        assert(false);
    }
}

} // verus!
