//! The configuration handle.
//!
//! A `Config` mirrors, as plain values, the readable state of one native
//! configuration object: the raw byte payload last written for each field,
//! the raw diagnostic messages the native side computed at finalize, and
//! whether the handle has been finalized. Sources are merged in load order,
//! later loads overriding earlier ones; typed getters decode the raw
//! payloads totally (absent or malformed payloads read as the type's zero
//! value); diagnostics decode the stored native messages in index order,
//! recomputed from the current state on every call.

use vstd::prelude::*;
use vstd::bytes::{spec_u16_from_le_bytes, spec_u64_from_le_bytes, u16_from_le_bytes,
    u64_from_le_bytes};
use crate::fields::{Field, FieldType};
use crate::text::{lossy_chars, nul_prefix, terminated_lossy_string,
    lemma_invalid_input_keeps_replacement};
use vstd::utf8::valid_utf8;

verus! {

/// An RGB color read from a color field.
#[derive(Debug, Clone, Copy, PartialEq, Eq, Structural, Hash)]
pub struct ConfigColor {
    pub r: u8,
    pub g: u8,
    pub b: u8,
}

/// One owned message the native side produced while validating the loaded
/// configuration.
#[derive(Debug, Clone, PartialEq, Eq, Hash)]
pub struct Diagnostic {
    pub message: String,
}

/// The mathematical state of a configuration handle: the merge log of raw
/// field payloads in load order, the raw diagnostic messages reported at
/// finalize, and the lifecycle flag.
pub struct ConfigModel {
    pub entries: Seq<(Field, Seq<u8>)>,
    pub messages: Seq<Seq<u8>>,
    pub finalized: bool,
}

/// The raw payload currently in effect for a field: the payload of its last
/// entry in the merge log, if the field was ever written.
pub open spec fn lookup(entries: Seq<(Field, Seq<u8>)>, field: Field) -> Option<Seq<u8>>
    decreases entries.len(),
{
    if entries.len() == 0 {
        None
    } else if entries.last().0 == field {
        Some(entries.last().1)
    } else {
        lookup(entries.drop_last(), field)
    }
}

/// What a boolean field reads as: one nonzero byte means true; an absent or
/// malformed payload reads as false.
pub open spec fn spec_bool_value(v: Option<Seq<u8>>) -> bool {
    match v {
        Some(b) => b.len() == 1 && b[0] != 0,
        None => false,
    }
}

/// What an unsigned byte field reads as; absent or malformed reads as zero.
pub open spec fn spec_u8_value(v: Option<Seq<u8>>) -> u8 {
    match v {
        Some(b) => if b.len() == 1 { b[0] } else { 0 },
        None => 0,
    }
}

/// What a signed 16-bit field reads as: two little-endian bytes
/// reinterpreted as signed; absent or malformed reads as zero.
pub open spec fn spec_i16_value(v: Option<Seq<u8>>) -> i16 {
    match v {
        Some(b) => if b.len() == 2 { spec_u16_from_le_bytes(b) as i16 } else { 0 },
        None => 0,
    }
}

/// What an unsigned 64-bit field reads as: eight little-endian bytes; absent
/// or malformed reads as zero.
pub open spec fn spec_u64_value(v: Option<Seq<u8>>) -> u64 {
    match v {
        Some(b) => if b.len() == 8 { spec_u64_from_le_bytes(b) } else { 0 },
        None => 0,
    }
}

/// What a color field reads as: three bytes, red then green then blue;
/// absent or malformed reads as black.
pub open spec fn spec_color_value(v: Option<Seq<u8>>) -> ConfigColor {
    match v {
        Some(b) => if b.len() == 3 {
            ConfigColor { r: b[0], g: b[1], b: b[2] }
        } else {
            ConfigColor { r: 0, g: 0, b: 0 }
        },
        None => ConfigColor { r: 0, g: 0, b: 0 },
    }
}

/// What a string field reads as: the zero-terminated portion of the payload
/// decoded as UTF-8 with replacement; an absent field reads as empty.
pub open spec fn spec_str_value(v: Option<Seq<u8>>) -> Seq<char> {
    match v {
        Some(b) => lossy_chars(nul_prefix(b)),
        None => Seq::empty(),
    }
}

/// The mathematical reading of a raw entry list.
pub closed spec fn raw_entries_view(v: Seq<(Field, Vec<u8>)>) -> Seq<(Field, Seq<u8>)> {
    v.map_values(|p: (Field, Vec<u8>)| (p.0, p.1@))
}

/// Each entry reads as its field together with the view of its payload.
pub broadcast proof fn lemma_raw_entries_view(v: Seq<(Field, Vec<u8>)>)
    ensures
        #[trigger] raw_entries_view(v).len() == v.len(),
        forall|j: int| 0 <= j < v.len() ==> raw_entries_view(v)[j] == (v[j].0, v[j].1@),
{
}

/// The mathematical reading of a raw message list.
pub closed spec fn raw_messages_view(v: Seq<Vec<u8>>) -> Seq<Seq<u8>> {
    v.map_values(|b: Vec<u8>| b@)
}

/// Each stored message reads as the view of its bytes.
pub broadcast proof fn lemma_raw_messages_view(v: Seq<Vec<u8>>)
    ensures
        #[trigger] raw_messages_view(v).len() == v.len(),
        forall|j: int| 0 <= j < v.len() ==> raw_messages_view(v)[j] == v[j]@,
{
}

/// One parsed configuration source: an ordered list of raw field payloads,
/// as the native side would hand them over. Within one source, later
/// entries override earlier ones, just as across sources.
pub struct Source {
    entries: Vec<(Field, Vec<u8>)>,
}

impl View for Source {
    type V = Seq<(Field, Seq<u8>)>;

    closed spec fn view(&self) -> Seq<(Field, Seq<u8>)> {
        raw_entries_view(self.entries@)
    }
}

impl Source {
    /// An empty source.
    pub fn new() -> (r: Source)
        ensures
            r@ == Seq::<(Field, Seq<u8>)>::empty(),
    {
        let r = Source { entries: Vec::new() };
        proof {
            assert(r@ =~= Seq::<(Field, Seq<u8>)>::empty());
        }
        r
    }

    /// Append one raw payload for a field.
    pub fn set(&mut self, field: Field, value: Vec<u8>)
        ensures
            final(self)@ == old(self)@.push((field, value@)),
    {
        let ghost prev = self@;
        let ghost v = value@;
        self.entries.push((field, value));
        proof {
            lemma_raw_entries_view(self.entries@);
            lemma_raw_entries_view(old(self).entries@);
            assert(self@ =~= prev.push((field, v)));
        }
    }
}

/// An owned configuration handle.
#[derive(Debug)]
pub struct Config {
    entries: Vec<(Field, Vec<u8>)>,
    messages: Vec<Vec<u8>>,
    finalized: bool,
}

impl View for Config {
    type V = ConfigModel;

    closed spec fn view(&self) -> ConfigModel {
        ConfigModel {
            entries: raw_entries_view(self.entries@),
            messages: raw_messages_view(self.messages@),
            finalized: self.finalized,
        }
    }
}

/// A copy of a byte payload.
fn clone_bytes(b: &Vec<u8>) -> (r: Vec<u8>)
    ensures
        r@ == b@,
{
    let mut r: Vec<u8> = Vec::new();
    let mut i: usize = 0;
    while i < b.len()
        invariant
            i <= b@.len(),
            r@ == b@.take(i as int),
        decreases b@.len() - i,
    {
        r.push(b[i]);
        i = i + 1;
        proof {
            assert(r@ =~= b@.take(i as int));
        }
    }
    proof {
        assert(r@ =~= b@);
    }
    r
}

impl Config {
    /// A fresh handle: nothing loaded, not yet finalized.
    pub fn open() -> (r: Config)
        ensures
            r@.entries == Seq::<(Field, Seq<u8>)>::empty(),
            r@.messages == Seq::<Seq<u8>>::empty(),
            !r@.finalized,
    {
        let r = Config { entries: Vec::new(), messages: Vec::new(), finalized: false };
        proof {
            assert(r@.entries =~= Seq::<(Field, Seq<u8>)>::empty());
            assert(r@.messages =~= Seq::<Seq<u8>>::empty());
        }
        r
    }

    /// Append every entry of the source to the merge log.
    fn merge(&mut self, source: &Source)
        requires
            !old(self)@.finalized,
        ensures
            final(self)@.entries == old(self)@.entries + source@,
            final(self)@.messages == old(self)@.messages,
            !final(self)@.finalized,
    {
        let ghost base = self@.entries;
        let mut i: usize = 0;
        proof {
            assert(self@.entries =~= base + source@.take(0));
        }
        while i < source.entries.len()
            invariant
                i <= source.entries@.len(),
                source@.len() == source.entries@.len(),
                self@.entries == base + source@.take(i as int),
                self@.messages == old(self)@.messages,
                self@.finalized == false,
            decreases source.entries@.len() - i,
        {
            let pair = &source.entries[i];
            let bytes = clone_bytes(&pair.1);
            let ghost prev_vec = self.entries@;
            let ghost prev_map = self@.entries;
            self.entries.push((pair.0, bytes));
            proof {
                lemma_raw_entries_view(self.entries@);
                lemma_raw_entries_view(prev_vec);
                lemma_raw_entries_view(source.entries@);
                assert(self@.entries =~= prev_map.push((pair.0, bytes@)));
                assert(source@[i as int] == (pair.0, pair.1@));
                assert(source@.take(i as int + 1) =~= source@.take(i as int).push(
                    source@[i as int],
                ));
                assert(self@.entries =~= base + source@.take(i as int + 1));
            }
            i = i + 1;
        }
        proof {
            assert(self@.entries =~= base + source@);
        }
    }

    /// Merge the configuration parsed from the command line. Later loads
    /// override earlier ones, and a finalized handle is locked.
    pub fn load_cli_args(&mut self, source: &Source)
        requires
            !old(self)@.finalized,
        ensures
            final(self)@.entries == old(self)@.entries + source@,
            final(self)@.messages == old(self)@.messages,
            !final(self)@.finalized,
    {
        self.merge(source)
    }

    /// Merge the configuration parsed from the default file locations.
    /// Later loads override earlier ones, and a finalized handle is locked.
    pub fn load_default_files(&mut self, source: &Source)
        requires
            !old(self)@.finalized,
        ensures
            final(self)@.entries == old(self)@.entries + source@,
            final(self)@.messages == old(self)@.messages,
            !final(self)@.finalized,
    {
        self.merge(source)
    }

    /// Merge the configuration gathered from files the already-loaded
    /// configuration points at, expanded by the native side up to its
    /// recursion limit. Later loads override earlier ones, and a finalized
    /// handle is locked.
    pub fn load_recursive_files(&mut self, source: &Source)
        requires
            !old(self)@.finalized,
        ensures
            final(self)@.entries == old(self)@.entries + source@,
            final(self)@.messages == old(self)@.messages,
            !final(self)@.finalized,
    {
        self.merge(source)
    }

    /// Lock the loaded values and store the raw diagnostic messages the
    /// native side computed while validating them. Diagnostics become
    /// meaningful from here on; the field values themselves do not change.
    pub fn finalize(&mut self, reported: &Vec<Vec<u8>>)
        ensures
            final(self)@.entries == old(self)@.entries,
            final(self)@.finalized,
            final(self)@.messages.len() == reported@.len(),
            forall|i: int|
                0 <= i < reported@.len() ==> final(self)@.messages[i] == reported@[i]@,
    {
        let mut msgs: Vec<Vec<u8>> = Vec::new();
        let mut i: usize = 0;
        while i < reported.len()
            invariant
                i <= reported@.len(),
                msgs@.len() == i,
                forall|j: int| 0 <= j < i ==> msgs@[j]@ == reported@[j]@,
            decreases reported@.len() - i,
        {
            msgs.push(clone_bytes(&reported[i]));
            i = i + 1;
        }
        self.messages = msgs;
        self.finalized = true;
        proof {
            lemma_raw_messages_view(self.messages@);
        }
    }

    /// Whether the handle has been finalized.
    pub fn is_finalized(&self) -> (r: bool)
        ensures
            r == self@.finalized,
    {
        self.finalized
    }

    /// The raw payload currently in effect for the field, if any.
    fn find(&self, field: Field) -> (r: Option<&Vec<u8>>)
        ensures
            r is Some <==> lookup(self@.entries, field) is Some,
            (r matches Some(b) ==> lookup(self@.entries, field) == Some(b@)),
    {
        let n: usize = self.entries.len();
        let mut i: usize = n;
        proof {
            assert(self@.entries.take(n as int) =~= self@.entries);
        }
        while i > 0
            invariant
                i <= n,
                n == self.entries@.len(),
                lookup(self@.entries, field) == lookup(self@.entries.take(i as int), field),
            decreases i,
        {
            i = i - 1;
            let pair = &self.entries[i];
            proof {
                assert(self@.entries.take(i as int + 1).last() == (pair.0, pair.1@));
                assert(self@.entries.take(i as int + 1).drop_last() =~= self@.entries.take(
                    i as int,
                ));
            }
            if pair.0 == field {
                return Some(&pair.1);
            }
        }
        None
    }

    /// Read a boolean field: false unless a well-formed nonzero payload is
    /// in effect.
    pub fn get_bool(&self, field: Field) -> (r: bool)
        requires
            field.spec_type() == FieldType::Bool,
        ensures
            r == spec_bool_value(lookup(self@.entries, field)),
    {
        match self.find(field) {
            Some(b) => b.len() == 1 && b[0] != 0,
            None => false,
        }
    }

    /// Read an unsigned byte field; zero when absent or malformed.
    pub fn get_u8(&self, field: Field) -> (r: u8)
        requires
            field.spec_type() == FieldType::U8,
        ensures
            r == spec_u8_value(lookup(self@.entries, field)),
    {
        match self.find(field) {
            Some(b) => if b.len() == 1 {
                b[0]
            } else {
                0
            },
            None => 0,
        }
    }

    /// Read a signed 16-bit field; zero when absent or malformed.
    pub fn get_i16(&self, field: Field) -> (r: i16)
        requires
            field.spec_type() == FieldType::I16,
        ensures
            r == spec_i16_value(lookup(self@.entries, field)),
    {
        match self.find(field) {
            Some(b) => if b.len() == 2 {
                u16_from_le_bytes(b.as_slice()) as i16
            } else {
                0
            },
            None => 0,
        }
    }

    /// Read an unsigned 64-bit field; zero when absent or malformed.
    pub fn get_u64(&self, field: Field) -> (r: u64)
        requires
            field.spec_type() == FieldType::U64,
        ensures
            r == spec_u64_value(lookup(self@.entries, field)),
    {
        match self.find(field) {
            Some(b) => if b.len() == 8 {
                u64_from_le_bytes(b.as_slice())
            } else {
                0
            },
            None => 0,
        }
    }

    /// Read a color field; black when absent or malformed.
    pub fn get_color(&self, field: Field) -> (r: ConfigColor)
        requires
            field.spec_type() == FieldType::Color,
        ensures
            r == spec_color_value(lookup(self@.entries, field)),
    {
        match self.find(field) {
            Some(b) => if b.len() == 3 {
                ConfigColor { r: b[0], g: b[1], b: b[2] }
            } else {
                ConfigColor { r: 0, g: 0, b: 0 }
            },
            None => ConfigColor { r: 0, g: 0, b: 0 },
        }
    }

    /// Read a string field: the zero-terminated portion of the payload,
    /// decoded as UTF-8 with invalid sequences replaced; empty when absent.
    pub fn get_str(&self, field: Field) -> (r: String)
        requires
            field.spec_type() == FieldType::Str,
        ensures
            r@ == spec_str_value(lookup(self@.entries, field)),
    {
        match self.find(field) {
            Some(b) => terminated_lossy_string(b),
            None => String::new(),
        }
    }
}

impl Clone for Config {
    /// A deep copy: the two handles afterwards share no state, and the copy
    /// reads exactly as the original did at the moment of cloning.
    fn clone(&self) -> (r: Self)
        ensures
            r@ == self@,
    {
        let mut entries: Vec<(Field, Vec<u8>)> = Vec::new();
        let mut i: usize = 0;
        while i < self.entries.len()
            invariant
                i <= self.entries@.len(),
                raw_entries_view(entries@) == self@.entries.take(i as int),
            decreases self.entries@.len() - i,
        {
            let pair = &self.entries[i];
            let bytes = clone_bytes(&pair.1);
            let ghost prev_vec = entries@;
            entries.push((pair.0, bytes));
            i = i + 1;
            proof {
                lemma_raw_entries_view(entries@);
                lemma_raw_entries_view(prev_vec);
                lemma_raw_entries_view(self.entries@);
                assert(raw_entries_view(entries@) =~= self@.entries.take(i as int));
            }
        }
        let mut messages: Vec<Vec<u8>> = Vec::new();
        let mut j: usize = 0;
        while j < self.messages.len()
            invariant
                j <= self.messages@.len(),
                messages@.len() == j,
                forall|k: int| 0 <= k < j ==> messages@[k]@ == self.messages@[k]@,
            decreases self.messages@.len() - j,
        {
            messages.push(clone_bytes(&self.messages[j]));
            j = j + 1;
        }
        let r = Config { entries, messages, finalized: self.finalized };
        proof {
            assert(self@.entries.take(self.entries@.len() as int) =~= self@.entries);
            assert(r@.entries =~= self@.entries);
            lemma_raw_messages_view(r.messages@);
            lemma_raw_messages_view(self.messages@);
            assert(r@.messages =~= self@.messages);
        }
        r
    }
}

/// The diagnostics a handle produces: the stored native messages, decoded
/// in index order, each as UTF-8 with ill-formed subparts replaced.
pub open spec fn spec_diagnostics(m: ConfigModel) -> Seq<Seq<char>> {
    Seq::new(m.messages.len(), |i: int| lossy_chars(nul_prefix(m.messages[i])))
}

/// The message sequence a list of diagnostics carries.
pub closed spec fn diag_messages(s: Seq<Diagnostic>) -> Seq<Seq<char>> {
    s.map_values(|d: Diagnostic| d.message@)
}

/// Each diagnostic in a list carries its own message.
pub broadcast proof fn lemma_diag_messages(s: Seq<Diagnostic>)
    ensures
        #[trigger] diag_messages(s).len() == s.len(),
        forall|j: int| 0 <= j < s.len() ==> diag_messages(s)[j] == s[j].message@,
{
}

impl Diagnostic {
    /// Decode one raw native diagnostic message: the zero-terminated portion
    /// of the buffer, as UTF-8 with ill-formed subparts replaced.
    pub fn from_raw(bytes: &Vec<u8>) -> (r: Diagnostic)
        ensures
            r.message@ == lossy_chars(nul_prefix(bytes@)),
    {
        Diagnostic { message: terminated_lossy_string(bytes) }
    }
}

/// Decode a list of raw native diagnostic messages: exactly one diagnostic
/// per message, in index order.
pub fn decode_diagnostics(msgs: &Vec<Vec<u8>>) -> (r: Vec<Diagnostic>)
    ensures
        r@.len() == msgs@.len(),
        forall|i: int|
            0 <= i < msgs@.len() ==> r@[i].message@ == lossy_chars(nul_prefix(msgs@[i]@)),
{
    let mut r: Vec<Diagnostic> = Vec::new();
    let mut i: usize = 0;
    while i < msgs.len()
        invariant
            i <= msgs@.len(),
            r@.len() == i,
            forall|j: int| 0 <= j < i ==> r@[j].message@ == lossy_chars(nul_prefix(msgs@[j]@)),
        decreases msgs@.len() - i,
    {
        r.push(Diagnostic::from_raw(&msgs[i]));
        i = i + 1;
    }
    r
}

impl Config {
    /// The diagnostics for the current state of the handle, recomputed on
    /// every call: as many as the native side reported at the latest
    /// finalize, and the i-th carries the decoding of the i-th reported
    /// message. Before finalize the handle holds none.
    pub fn diagnostics(&self) -> (r: Vec<Diagnostic>)
        ensures
            diag_messages(r@) == spec_diagnostics(self@),
    {
        let r = decode_diagnostics(&self.messages);
        proof {
            lemma_diag_messages(r@);
            lemma_raw_messages_view(self.messages@);
            assert(diag_messages(r@) =~= spec_diagnostics(self@));
        }
        r
    }
}

/// Later sources take precedence: looking a field up in a merged log reads
/// the later part whenever the later part sets the field at all, and falls
/// back to the earlier part otherwise.
pub proof fn lemma_load_precedence(
    earlier: Seq<(Field, Seq<u8>)>,
    later: Seq<(Field, Seq<u8>)>,
    f: Field,
)
    ensures
        lookup(earlier + later, f) == (if lookup(later, f) is Some {
            lookup(later, f)
        } else {
            lookup(earlier, f)
        }),
    decreases later.len(),
{
    if later.len() == 0 {
        assert(earlier + later =~= earlier);
    } else {
        assert((earlier + later).last() == later.last());
        assert((earlier + later).drop_last() =~= earlier + later.drop_last());
        lemma_load_precedence(earlier, later.drop_last(), f);
    }
}

/// A field that the latest loaded source sets reads, after that load and
/// ever after finalize, exactly as that source set it, whatever any earlier
/// source said.
pub proof fn lemma_final_value_from_latest_source(
    base: Seq<(Field, Seq<u8>)>,
    src: Seq<(Field, Seq<u8>)>,
    f: Field,
)
    requires
        lookup(src, f) is Some,
    ensures
        lookup(base + src, f) == lookup(src, f),
{
    lemma_load_precedence(base, src, f);
}

/// A handle with zero loaded sources, once finalized with nothing reported,
/// has no diagnostics, and every typed getter reads the type's zero value.
pub proof fn lemma_fresh_handle_defaults(m: ConfigModel, f: Field)
    requires
        m.entries.len() == 0,
        m.messages.len() == 0,
    ensures
        spec_diagnostics(m).len() == 0,
        spec_bool_value(lookup(m.entries, f)) == false,
        spec_u8_value(lookup(m.entries, f)) == 0,
        spec_i16_value(lookup(m.entries, f)) == 0,
        spec_u64_value(lookup(m.entries, f)) == 0,
        spec_color_value(lookup(m.entries, f)) == (ConfigColor { r: 0, g: 0, b: 0 }),
        spec_str_value(lookup(m.entries, f)) == Seq::<char>::empty(),
{
}

/// Reading diagnostics is deterministic: two reads of the same handle state
/// return equal message sequences, so the sequence may be recomputed at
/// will.
pub proof fn lemma_diagnostics_restartable(
    m: ConfigModel,
    d1: Seq<Seq<char>>,
    d2: Seq<Seq<char>>,
)
    requires
        d1 == spec_diagnostics(m),
        d2 == spec_diagnostics(m),
    ensures
        d1 == d2,
{
}

/// A clone is independent of the original: finalizing only the original
/// (which locks it and keeps its entries) leaves every field value the
/// clone reads exactly as both handles read it at the moment of cloning.
pub proof fn lemma_clone_unaffected_by_finalize(
    snapshot: ConfigModel,
    before: ConfigModel,
    after: ConfigModel,
    f: Field,
)
    requires
        snapshot.entries == before.entries,
        after.entries == before.entries,
        after.finalized,
    ensures
        spec_bool_value(lookup(snapshot.entries, f)) == spec_bool_value(
            lookup(after.entries, f),
        ),
        spec_u8_value(lookup(snapshot.entries, f)) == spec_u8_value(lookup(after.entries, f)),
        spec_i16_value(lookup(snapshot.entries, f)) == spec_i16_value(lookup(after.entries, f)),
        spec_u64_value(lookup(snapshot.entries, f)) == spec_u64_value(lookup(after.entries, f)),
        spec_color_value(lookup(snapshot.entries, f)) == spec_color_value(
            lookup(after.entries, f),
        ),
        spec_str_value(lookup(snapshot.entries, f)) == spec_str_value(lookup(after.entries, f)),
{
}

/// A string payload whose terminated portion is not valid UTF-8 still
/// decodes, and the decoded text holds a replacement character rather than
/// being truncated or rejected.
pub proof fn lemma_malformed_text_is_replaced(b: Seq<u8>)
    requires
        !valid_utf8(nul_prefix(b)),
    ensures
        spec_str_value(Some(b)).contains('\u{FFFD}'),
{
    lemma_invalid_input_keeps_replacement(nul_prefix(b));
}

impl Config {
    /// Whether an initial window should be created.
    pub fn create_initial_window(&self) -> (r: bool)
        ensures
            r == spec_bool_value(lookup(self@.entries, Field::InitialWindow)),
    {
        self.get_bool(Field::InitialWindow)
    }

    /// Whether the program should quit after the last window closes.
    pub fn do_quit_after_window_closed(&self) -> (r: bool)
        ensures
            r == spec_bool_value(lookup(self@.entries, Field::QuitAfterWindowClosed)),
    {
        self.get_bool(Field::QuitAfterWindowClosed)
    }

    /// The window title.
    pub fn window_title(&self) -> (r: String)
        ensures
            r@ == spec_str_value(lookup(self@.entries, Field::Title)),
    {
        self.get_str(Field::Title)
    }

    /// The requested window position, x then y.
    pub fn window_position(&self) -> (r: (i16, i16))
        ensures
            r.0 == spec_i16_value(lookup(self@.entries, Field::WindowPositionX)),
            r.1 == spec_i16_value(lookup(self@.entries, Field::WindowPositionY)),
    {
        (self.get_i16(Field::WindowPositionX), self.get_i16(Field::WindowPositionY))
    }

    /// Where a new tab is placed.
    pub fn window_new_tab_position(&self) -> (r: String)
        ensures
            r@ == spec_str_value(lookup(self@.entries, Field::WindowNewTabPosition)),
    {
        self.get_str(Field::WindowNewTabPosition)
    }

    /// Whether the window carries decorations.
    pub fn window_decorations(&self) -> (r: bool)
        ensures
            r == spec_bool_value(lookup(self@.entries, Field::WindowDecoration)),
    {
        self.get_bool(Field::WindowDecoration)
    }

    /// The window theme name.
    pub fn window_theme(&self) -> (r: String)
        ensures
            r@ == spec_str_value(lookup(self@.entries, Field::WindowTheme)),
    {
        self.get_str(Field::WindowTheme)
    }

    /// Whether resizing snaps to cell steps.
    pub fn window_step_resize(&self) -> (r: bool)
        ensures
            r == spec_bool_value(lookup(self@.entries, Field::WindowStepResize)),
    {
        self.get_bool(Field::WindowStepResize)
    }

    /// Whether the window starts fullscreen.
    pub fn window_fullscreen(&self) -> (r: bool)
        ensures
            r == spec_bool_value(lookup(self@.entries, Field::Fullscreen)),
    {
        self.get_bool(Field::Fullscreen)
    }

    /// The font family of the window title.
    pub fn window_title_font_family(&self) -> (r: String)
        ensures
            r@ == spec_str_value(lookup(self@.entries, Field::WindowTitleFontFamily)),
    {
        self.get_str(Field::WindowTitleFontFamily)
    }

    /// Whether focus follows the mouse.
    pub fn focus_follows_mouse(&self) -> (r: bool)
        ensures
            r == spec_bool_value(lookup(self@.entries, Field::FocusFollowsMouse)),
    {
        self.get_bool(Field::FocusFollowsMouse)
    }

    /// The background color.
    pub fn background_color(&self) -> (r: ConfigColor)
        ensures
            r == spec_color_value(lookup(self@.entries, Field::Background)),
    {
        self.get_color(Field::Background)
    }

    /// The foreground color.
    pub fn foreground_color(&self) -> (r: ConfigColor)
        ensures
            r == spec_color_value(lookup(self@.entries, Field::Foreground)),
    {
        self.get_color(Field::Foreground)
    }

    /// The background blur radius.
    pub fn background_blur_radius(&self) -> (r: u8)
        ensures
            r == spec_u8_value(lookup(self@.entries, Field::BackgroundBlur)),
    {
        self.get_u8(Field::BackgroundBlur)
    }

    /// The fill color of unfocused splits.
    pub fn unfocused_split_fill(&self) -> (r: ConfigColor)
        ensures
            r == spec_color_value(lookup(self@.entries, Field::UnfocusedSplitFill)),
    {
        self.get_color(Field::UnfocusedSplitFill)
    }

    /// The color of the divider between splits.
    pub fn split_divider_color(&self) -> (r: ConfigColor)
        ensures
            r == spec_color_value(lookup(self@.entries, Field::SplitDividerColor)),
    {
        self.get_color(Field::SplitDividerColor)
    }

    /// The resize overlay mode.
    pub fn resize_overlay(&self) -> (r: String)
        ensures
            r@ == spec_str_value(lookup(self@.entries, Field::ResizeOverlay)),
    {
        self.get_str(Field::ResizeOverlay)
    }

    /// Where the resize overlay is shown.
    pub fn resize_overlay_position(&self) -> (r: String)
        ensures
            r@ == spec_str_value(lookup(self@.entries, Field::ResizeOverlayPosition)),
    {
        self.get_str(Field::ResizeOverlayPosition)
    }

    /// How long the resize overlay stays, in milliseconds.
    pub fn resize_overlay_duration_ms(&self) -> (r: u64)
        ensures
            r == spec_u64_value(lookup(self@.entries, Field::ResizeOverlayDuration)),
    {
        self.get_u64(Field::ResizeOverlayDuration)
    }

    /// Whether the window starts maximized.
    pub fn start_maximized(&self) -> (r: bool)
        ensures
            r == spec_bool_value(lookup(self@.entries, Field::Maximize)),
    {
        self.get_bool(Field::Maximize)
    }
}

} // verus!
