//! Schema info: what a record looks like to the application (native) and in
//! the store (local), and the translation between the two forms.

use crate::error::{ErrorKind, ErrorView, InvalidRecord};
use crate::json::{
    clone_members, clone_value, find_member, json_parsed, json_written, lookup, members_view,
    parse_json, write_json, JsonValue, JsonView, Member,
};
use crate::text::{
    decimal, digits_value, MAX_WHOLE_DIGITS, parse_whole, point_at, push_char, push_decimal,
};
use vstd::prelude::*;

verus! {

/// What a field may hold.
#[derive(Debug, Clone, Copy, PartialEq, Eq, Structural)]
pub enum FieldKind {
    /// The record's own id, a text.
    OwnGuid,
    Text,
    Number,
    Bool,
    /// Any value at all.
    Any,
}

/// A schema's version. Two versions with the same major number are
/// compatible.
#[derive(Debug, Clone, Copy, PartialEq, Eq, Structural)]
pub struct SchemaVersion {
    pub major: u32,
    pub minor: u32,
    pub patch: u32,
}

/// One field of a schema: its name in the store, its name in the
/// application, what it holds, and whether a record must have it.
#[derive(Debug, Clone)]
pub struct FieldInfo {
    pub name: String,
    pub native_name: String,
    pub kind: FieldKind,
    pub required: bool,
}

pub struct FieldView {
    pub name: Seq<char>,
    pub native_name: Seq<char>,
    pub kind: FieldKind,
    pub required: bool,
}

impl View for FieldInfo {
    type V = FieldView;

    open spec fn view(&self) -> FieldView {
        FieldView {
            name: self.name@,
            native_name: self.native_name@,
            kind: self.kind,
            required: self.required,
        }
    }
}

/// The character sequences of a list of strings.
pub open spec fn names_view(names: Seq<String>) -> Seq<Seq<char>> {
    Seq::new(names.len(), |i: int| names[i]@)
}

/// The views of a list of fields.
pub open spec fn fields_view(fields: Seq<FieldInfo>) -> Seq<FieldView> {
    Seq::new(fields.len(), |i: int| fields[i]@)
}

/// A record as the application holds it.
#[derive(Debug)]
pub struct NativeRecord {
    pub fields: Vec<Member>,
}

/// A record as the store holds it.
#[derive(Debug)]
pub struct LocalRecord {
    pub fields: Vec<Member>,
}

impl View for NativeRecord {
    type V = Seq<(Seq<char>, JsonView)>;

    open spec fn view(&self) -> Seq<(Seq<char>, JsonView)> {
        members_view(self.fields@)
    }
}

impl View for LocalRecord {
    type V = Seq<(Seq<char>, JsonView)>;

    open spec fn view(&self) -> Seq<(Seq<char>, JsonView)> {
        members_view(self.fields@)
    }
}

impl Clone for NativeRecord {
    fn clone(&self) -> (r: NativeRecord)
        ensures
            r@ == self@,
    {
        NativeRecord { fields: crate::json::clone_members(&self.fields) }
    }
}

impl Clone for LocalRecord {
    fn clone(&self) -> (r: LocalRecord)
        ensures
            r@ == self@,
    {
        LocalRecord { fields: crate::json::clone_members(&self.fields) }
    }
}

impl LocalRecord {
    /// The record without fields, which a tombstone holds.
    pub fn empty() -> (r: LocalRecord)
        ensures
            r@ == Seq::<(Seq<char>, JsonView)>::empty(),
    {
        let r = LocalRecord { fields: Vec::new() };
        assert(r@ =~= Seq::<(Seq<char>, JsonView)>::empty());
        r
    }
}

/// Why a record is translated to its local form.
#[derive(Debug, Clone, Copy, PartialEq, Eq, Structural)]
pub enum ToLocalReason {
    /// To compare it with stored records.
    Comparison,
    /// To store it as a new record.
    Creation,
    /// To replace a stored record.
    Update,
}

/// The schema as the application hands it over when it opens a store.
#[derive(Debug, Clone)]
pub struct NativeSchemaInfo {
    pub version: SchemaVersion,
    pub fields: Vec<FieldInfo>,
    pub dedupe_on: Vec<String>,
}

/// The schema of an open store.
#[derive(Debug, Clone)]
pub struct RemergeInfo {
    pub version: SchemaVersion,
    pub fields: Vec<FieldInfo>,
    pub dedupe_on: Vec<String>,
}

pub struct InfoView {
    pub version: SchemaVersion,
    pub fields: Seq<FieldView>,
    pub dedupe_on: Seq<Seq<char>>,
}

impl View for NativeSchemaInfo {
    type V = InfoView;

    open spec fn view(&self) -> InfoView {
        InfoView {
            version: self.version,
            fields: fields_view(self.fields@),
            dedupe_on: names_view(self.dedupe_on@),
        }
    }
}

impl View for RemergeInfo {
    type V = InfoView;

    open spec fn view(&self) -> InfoView {
        InfoView {
            version: self.version,
            fields: fields_view(self.fields@),
            dedupe_on: names_view(self.dedupe_on@),
        }
    }
}

/// Whether a value is of the kind that a field asks for.
pub open spec fn fits(kind: FieldKind, v: JsonView) -> bool {
    match kind {
        FieldKind::OwnGuid => v is Text,
        FieldKind::Text => v is Text,
        FieldKind::Number => v is Number,
        FieldKind::Bool => v is Bool,
        FieldKind::Any => true,
    }
}

/// Which way a record is translated: into the store, for an update or not,
/// with the id to give a record that brings none; or out of the store.
pub enum Direction {
    ToLocal { update: bool, fresh: Seq<char> },
    ToNative,
}

/// What one schema field contributes to the translated record: nothing, or
/// one member; `None` where the record breaks the schema at this field.
///
/// A field that the source holds is taken over under its other name if its
/// value fits the field's kind. A missing id is filled in with the fresh id
/// on the way in, unless the record is there for an update. Any other
/// missing field is passed over unless the schema requires it.
pub open spec fn translate_step(
    f: FieldView,
    source: Seq<(Seq<char>, JsonView)>,
    dir: Direction,
) -> Option<Seq<(Seq<char>, JsonView)>> {
    let from = if dir is ToNative { f.name } else { f.native_name };
    let to = if dir is ToNative { f.native_name } else { f.name };
    match lookup(source, from) {
        Some(v) => if fits(f.kind, v) {
            Some(seq![(to, v)])
        } else {
            None
        },
        None => match dir {
            Direction::ToLocal { update, fresh } => if f.kind == FieldKind::OwnGuid {
                if update {
                    None
                } else {
                    Some(seq![(to, JsonView::Text(fresh))])
                }
            } else if f.required {
                None
            } else {
                Some(Seq::empty())
            },
            Direction::ToNative => if f.required {
                None
            } else {
                Some(Seq::empty())
            },
        },
    }
}

/// The translated record: the contributions of the schema's fields in the
/// schema's order, or `None` where any field is broken.
pub open spec fn translate(
    fields: Seq<FieldView>,
    source: Seq<(Seq<char>, JsonView)>,
    dir: Direction,
) -> Option<Seq<(Seq<char>, JsonView)>>
    decreases fields.len(),
{
    if fields.len() == 0 {
        Some(Seq::empty())
    } else {
        match (translate(fields.drop_last(), source, dir), translate_step(fields.last(), source, dir)) {
            (Some(head), Some(tail)) => Some(head + tail),
            _ => None,
        }
    }
}

/// The id that a local record carries: the text under the first id field
/// of the schema that the record has.
pub open spec fn record_guid(fields: Seq<FieldView>, local: Seq<(Seq<char>, JsonView)>) -> Option<Seq<char>>
    decreases fields.len(),
{
    if fields.len() == 0 {
        None
    } else if fields[0].kind == FieldKind::OwnGuid && lookup(local, fields[0].name) is Some && lookup(
        local,
        fields[0].name,
    )->Some_0 is Text {
        Some(lookup(local, fields[0].name)->Some_0->Text_0)
    } else {
        record_guid(fields.drop_first(), local)
    }
}

/// A record's local form and id, or the schema violation.
pub open spec fn to_local(
    info: InfoView,
    native: Seq<(Seq<char>, JsonView)>,
    reason: ToLocalReason,
    fresh: Seq<char>,
) -> Result<(Seq<char>, Seq<(Seq<char>, JsonView)>), ErrorView> {
    let update = reason == ToLocalReason::Update;
    match translate(info.fields, native, Direction::ToLocal { update, fresh }) {
        None => Err(ErrorView::InvalidRecord(InvalidRecord::SchemaViolation)),
        Some(local) => match record_guid(info.fields, local) {
            Some(id) => Ok((id, local)),
            None => if update {
                Err(ErrorView::InvalidRecord(InvalidRecord::SchemaViolation))
            } else {
                Ok((fresh, local))
            },
        },
    }
}

/// A stored record's native form, or the schema violation.
pub open spec fn to_native(info: InfoView, local: Seq<(Seq<char>, JsonView)>) -> Result<
    Seq<(Seq<char>, JsonView)>,
    ErrorView,
> {
    match translate(info.fields, local, Direction::ToNative) {
        None => Err(ErrorView::InvalidRecord(InvalidRecord::SchemaViolation)),
        Some(native) => Ok(native),
    }
}

/// Two records agree on each of the named fields: both lack it or both hold
/// the same value.
pub open spec fn same_projection(
    a: Seq<(Seq<char>, JsonView)>,
    b: Seq<(Seq<char>, JsonView)>,
    on: Seq<Seq<char>>,
) -> bool {
    forall|k: int| 0 <= k < on.len() ==> lookup(a, #[trigger] on[k]) == lookup(b, on[k])
}

fn kind_fits(kind: FieldKind, v: &JsonValue) -> (r: bool)
    ensures
        r == fits(kind, v@),
{
    match kind {
        FieldKind::OwnGuid | FieldKind::Text => match v {
            JsonValue::Text(_) => true,
            _ => false,
        },
        FieldKind::Number => match v {
            JsonValue::Number(_) => true,
            _ => false,
        },
        FieldKind::Bool => match v {
            JsonValue::Bool(_) => true,
            _ => false,
        },
        FieldKind::Any => true,
    }
}

fn translate_members(
    fields: &Vec<FieldInfo>,
    source: &Vec<Member>,
    to_native: bool,
    update: bool,
    fresh: &str,
) -> (r: Option<Vec<Member>>)
    ensures
        r is Some <==> translate(
            fields_view(fields@),
            members_view(source@),
            if to_native { Direction::ToNative } else { Direction::ToLocal { update, fresh: fresh@ } },
        ) is Some,
        r matches Some(out) ==> Some(members_view(out@)) == translate(
            fields_view(fields@),
            members_view(source@),
            if to_native { Direction::ToNative } else { Direction::ToLocal { update, fresh: fresh@ } },
        ),
{
    let ghost dir = if to_native { Direction::ToNative } else { Direction::ToLocal { update, fresh: fresh@ } };
    let ghost fs = fields_view(fields@);
    let ghost src = members_view(source@);
    let mut out: Vec<Member> = Vec::new();
    let mut i: usize = 0;
    assert(fs.take(0) =~= Seq::<FieldView>::empty());
    assert(members_view(out@) =~= Seq::<(Seq<char>, JsonView)>::empty());
    while i < fields.len()
        invariant
            0 <= i <= fields.len(),
            fs == fields_view(fields@),
            src == members_view(source@),
            dir == (if to_native { Direction::ToNative } else { Direction::ToLocal { update, fresh: fresh@ } }),
            translate(fs.take(i as int), src, dir) == Some(members_view(out@)),
        decreases fields.len() - i,
    {
        let f = &fields[i];
        let ghost before = members_view(out@);
        proof {
            assert(fs.take(i as int + 1).drop_last() =~= fs.take(i as int));
            assert(fs.take(i as int + 1).last() == f@);
        }
        let from = if to_native { f.name.as_str() } else { f.native_name.as_str() };
        let to = if to_native { f.native_name.as_str() } else { f.name.as_str() };
        match find_member(source, from) {
            Some(v) => {
                if kind_fits(f.kind, v) {
                    out.push(Member { name: to.to_owned(), value: clone_value(v) });
                    assert(members_view(out@) =~= before + seq![(to@, v@)]);
                } else {
                    proof {
                        lemma_translate_prefix_none(fs, src, dir, i as int + 1);
                    }
                    return None;
                }
            },
            None => {
                if !to_native && matches!(f.kind, FieldKind::OwnGuid) {
                    if update {
                        proof {
                            lemma_translate_prefix_none(fs, src, dir, i as int + 1);
                        }
                        return None;
                    }
                    out.push(Member { name: to.to_owned(), value: JsonValue::Text(fresh.to_owned()) });
                    assert(members_view(out@) =~= before + seq![(to@, JsonView::Text(fresh@))]);
                } else if f.required {
                    proof {
                        lemma_translate_prefix_none(fs, src, dir, i as int + 1);
                    }
                    return None;
                } else {
                    assert(before + Seq::<(Seq<char>, JsonView)>::empty() =~= before);
                }
            },
        }
        i += 1;
    }
    assert(fs.take(i as int) =~= fs);
    Some(out)
}

/// Once a prefix of the schema rejects a record, the whole schema does.
proof fn lemma_translate_prefix_none(
    fields: Seq<FieldView>,
    source: Seq<(Seq<char>, JsonView)>,
    dir: Direction,
    n: int,
)
    requires
        0 <= n <= fields.len(),
        translate(fields.take(n), source, dir) is None,
    ensures
        translate(fields, source, dir) is None,
    decreases fields.len() - n,
{
    if n < fields.len() {
        assert(fields.take(n + 1).drop_last() =~= fields.take(n));
        lemma_translate_prefix_none(fields, source, dir, n + 1);
    } else {
        assert(fields.take(n) =~= fields);
    }
}

fn guid_of_members(fields: &Vec<FieldInfo>, local: &Vec<Member>) -> (r: Option<String>)
    ensures
        r is Some <==> record_guid(fields_view(fields@), members_view(local@)) is Some,
        r matches Some(id) ==> record_guid(fields_view(fields@), members_view(local@)) == Some(id@),
{
    let ghost fs = fields_view(fields@);
    let ghost rec = members_view(local@);
    assert(fs.skip(0) =~= fs);
    let mut i: usize = 0;
    while i < fields.len()
        invariant
            0 <= i <= fields.len(),
            fs == fields_view(fields@),
            rec == members_view(local@),
            record_guid(fs, rec) == record_guid(fs.skip(i as int), rec),
        decreases fields.len() - i,
    {
        proof {
            assert(fs.skip(i as int).drop_first() =~= fs.skip(i as int + 1));
            assert(fs.skip(i as int)[0] == fields@[i as int]@);
        }
        if matches!(fields[i].kind, FieldKind::OwnGuid) {
            match find_member(local, fields[i].name.as_str()) {
                Some(JsonValue::Text(t)) => {
                    return Some(t.clone());
                },
                _ => {},
            }
        }
        i += 1;
    }
    None
}

impl RemergeInfo {
    /// The schema of a store opened with `native`.
    pub fn from_native(native: NativeSchemaInfo) -> (r: RemergeInfo)
        ensures
            r@ == native@,
    {
        RemergeInfo { version: native.version, fields: native.fields, dedupe_on: native.dedupe_on }
    }

    /// Translates a native record to its local form and finds its id.
    /// `fresh` is the id for a record that brings none.
    pub fn native_to_local(&self, native: &NativeRecord, reason: ToLocalReason, fresh: &str) -> (r: Result<
        (String, LocalRecord),
        ErrorKind,
    >)
        ensures
            r is Ok <==> to_local(self@, native@, reason, fresh@) is Ok,
            r matches Ok(pair) ==> to_local(self@, native@, reason, fresh@) == Ok::<_, ErrorView>((pair.0@, pair.1@)),
            r matches Err(e) ==> to_local(self@, native@, reason, fresh@) == Err::<
                (Seq<char>, Seq<(Seq<char>, JsonView)>),
                _,
            >(e@),
    {
        let update = matches!(reason, ToLocalReason::Update);
        match translate_members(&self.fields, &native.fields, false, update, fresh) {
            None => Err(ErrorKind::InvalidRecord(InvalidRecord::SchemaViolation)),
            Some(fields) => {
                match guid_of_members(&self.fields, &fields) {
                    Some(id) => Ok((id, LocalRecord { fields })),
                    None => {
                        if update {
                            Err(ErrorKind::InvalidRecord(InvalidRecord::SchemaViolation))
                        } else {
                            Ok((fresh.to_owned(), LocalRecord { fields }))
                        }
                    },
                }
            },
        }
    }

    /// Translates a stored record to its native form.
    pub fn local_to_native(&self, local: &LocalRecord) -> (r: Result<NativeRecord, ErrorKind>)
        ensures
            r is Ok <==> to_native(self@, local@) is Ok,
            r matches Ok(rec) ==> to_native(self@, local@) == Ok::<_, ErrorView>(rec@),
            r matches Err(e) ==> to_native(self@, local@) == Err::<Seq<(Seq<char>, JsonView)>, _>(e@),
    {
        match translate_members(&self.fields, &local.fields, true, false, "") {
            None => Err(ErrorKind::InvalidRecord(InvalidRecord::SchemaViolation)),
            Some(fields) => Ok(NativeRecord { fields }),
        }
    }

    /// Whether two local records agree on every deduplication field.
    pub fn same_dedupe_fields(&self, a: &LocalRecord, b: &LocalRecord) -> (r: bool)
        ensures
            r == same_projection(a@, b@, self@.dedupe_on),
    {
        let ghost on = self@.dedupe_on;
        let mut k: usize = 0;
        while k < self.dedupe_on.len()
            invariant
                0 <= k <= self.dedupe_on.len(),
                on == names_view(self.dedupe_on@),
                forall|j: int| 0 <= j < k ==> lookup(a@, #[trigger] on[j]) == lookup(b@, on[j]),
            decreases self.dedupe_on.len() - k,
        {
            let name = self.dedupe_on[k].as_str();
            assert(name@ == on[k as int]);
            let same = match (find_member(&a.fields, name), find_member(&b.fields, name)) {
                (Some(x), Some(y)) => crate::json::value_eq(x, y),
                (None, None) => true,
                _ => false,
            };
            if !same {
                assert(lookup(a@, on[k as int]) != lookup(b@, on[k as int]));
                return false;
            }
            k += 1;
        }
        true
    }
}

/// The number that one part of a version text spells: one to fifteen
/// digits with a value that fits in 32 bits.
pub open spec fn version_part(s: Seq<char>) -> Option<u32> {
    if s.len() == 0 || s.len() > MAX_WHOLE_DIGITS {
        None
    } else {
        match digits_value(s) {
            Some(v) => if v <= u32::MAX {
                Some(v as u32)
            } else {
                None
            },
            None => None,
        }
    }
}

/// The text of a version: the three numbers in decimal with points between
/// them.
pub open spec fn version_text(v: SchemaVersion) -> Seq<char> {
    decimal(v.major as nat) + seq!['.'] + decimal(v.minor as nat) + seq!['.'] + decimal(v.patch as nat)
}

/// The version that a text spells: three parts with a point after the
/// first and after the second.
pub open spec fn version_of_text(s: Seq<char>) -> Option<SchemaVersion> {
    let a = point_at(s);
    let rest = s.skip(a + 1);
    let b = point_at(rest);
    let last = rest.skip(b + 1);
    if a >= s.len() || b >= rest.len() || point_at(last) != last.len() {
        None
    } else {
        match (version_part(s.take(a)), version_part(rest.take(b)), version_part(last)) {
            (Some(major), Some(minor), Some(patch)) => Some(SchemaVersion { major, minor, patch }),
            _ => None,
        }
    }
}

impl SchemaVersion {
    /// Whether a store written under `self` can be opened under `other`:
    /// the major numbers agree.
    pub fn compatible(&self, other: &SchemaVersion) -> (r: bool)
        ensures
            r == (self.major == other.major),
    {
        self.major == other.major
    }

    /// The text of the version.
    pub fn to_text(&self) -> (text: String)
        ensures
            text@ == version_text(*self),
    {
        let mut out = String::new();
        push_decimal(&mut out, self.major as u64);
        push_char(&mut out, '.');
        push_decimal(&mut out, self.minor as u64);
        push_char(&mut out, '.');
        push_decimal(&mut out, self.patch as u64);
        assert(out@ =~= version_text(*self));
        out
    }

    /// Reads a version from its text.
    pub fn parse(text: &str) -> (r: Option<SchemaVersion>)
        ensures
            r == version_of_text(text@),
    {
        let n = text.unicode_len();
        let ghost s = text@;
        assert(s.skip(0) =~= s);
        let (major, first) = match parse_whole(text, 0) {
            Some(pair) => pair,
            None => {
                return None;
            },
        };
        if first >= n || major > u32::MAX as u64 {
            return None;
        }
        let ghost rest = s.skip(first + 1);
        let (minor, second) = match parse_whole(text, first + 1) {
            Some(pair) => pair,
            None => {
                return None;
            },
        };
        if second >= n || minor > u32::MAX as u64 {
            return None;
        }
        let ghost last = rest.skip(second - first);
        assert(last =~= s.skip(second + 1));
        let (patch, end) = match parse_whole(text, second + 1) {
            Some(pair) => pair,
            None => {
                proof {
                    // a third part that stops at a point is none, whatever it holds
                    assert(last.take(last.len() as int) =~= last);
                }
                return None;
            },
        };
        assert(last.take(last.len() as int) =~= last);
        if end < n || patch > u32::MAX as u64 {
            return None;
        }
        Some(SchemaVersion { major: major as u32, minor: minor as u32, patch: patch as u32 })
    }
}

/// The record that a tree stands for: an object, member by member.
pub open spec fn record_of_tree(v: JsonView) -> Option<Seq<(Seq<char>, JsonView)>> {
    match v {
        JsonView::Object(ms) => Some(ms),
        _ => None,
    }
}

impl LocalRecord {
    /// The JSON text of the record: an object of its fields.
    pub fn to_text(&self) -> (text: String)
        ensures
            text@ == json_written(JsonView::Object(self@)),
    {
        let tree = JsonValue::Object(clone_members(&self.fields));
        proof {
            crate::json::lemma_value_view(tree);
        }
        write_json(&tree)
    }

    /// Reads a record from JSON text, which must be an object.
    pub fn from_text(text: &str) -> (r: Option<LocalRecord>)
        ensures
            r matches Some(rec) ==> json_parsed(text@) matches Some(v) && record_of_tree(v) == Some(rec@),
            r is None ==> (json_parsed(text@) matches Some(v) ==> record_of_tree(v) is None),
    {
        match parse_json(text) {
            Some(v) => {
                proof {
                    crate::json::lemma_value_view(v);
                }
                match v {
                    JsonValue::Object(fields) => Some(LocalRecord { fields }),
                    _ => None,
                }
            },
            None => None,
        }
    }
}

} // verus!
