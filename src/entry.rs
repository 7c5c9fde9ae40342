//! Operations, audit records and their line-delimited JSON form.
use vstd::prelude::*;

verus! {

/// The checksum written when the content checksum could not be computed.
pub const CHECKSUM_UNKNOWN: &'static str = "unknown";

/// The kind of a raw filesystem notification, as the notification source
/// reports it.
#[derive(Clone, Copy, Debug, PartialEq, Eq, Structural)]
pub enum EventKind {
    Any,
    Access,
    Create,
    Modify,
    Remove,
    Other,
}

/// The classified kind of a filesystem change.
#[derive(Clone, Copy, Debug, PartialEq, Eq, Structural)]
pub enum Operation {
    Create,
    Remove,
    Modify,
    Access,
    Unknown,
}

/// The operation a raw notification kind stands for.
pub open spec fn classify_spec(kind: EventKind) -> Operation {
    match kind {
        EventKind::Create => Operation::Create,
        EventKind::Remove => Operation::Remove,
        EventKind::Modify => Operation::Modify,
        EventKind::Access => Operation::Access,
        EventKind::Any | EventKind::Other => Operation::Unknown,
    }
}

/// The name of an operation as records carry it.
pub open spec fn op_name(op: Operation) -> Seq<char> {
    match op {
        Operation::Create => "CREATE"@,
        Operation::Remove => "REMOVE"@,
        Operation::Modify => "MODIFY"@,
        Operation::Access => "ACCESS"@,
        Operation::Unknown => "UNKNOWN"@,
    }
}

/// The JSON string literal (quoted and escaped) for a text, as serde_json writes it.
pub uninterp spec fn json_quoted(s: Seq<char>) -> Seq<char>;

/// Whether `s` has the hyphenated form of a UUID: 36 characters, `-` at
/// positions 8, 13, 18 and 23, and lowercase hexadecimal digits elsewhere.
pub open spec fn uuid_shaped(s: Seq<char>) -> bool {
    &&& s.len() == 36
    &&& forall|i: int|
        0 <= i < 36 ==> if i == 8 || i == 13 || i == 18 || i == 23 {
            #[trigger] s[i] == '-'
        } else {
            ('0' <= s[i] <= '9') || ('a' <= s[i] <= 'f')
        }
}

/// Relies on uuid's `Uuid::new_v4` for a random identifier and on its `Display`
/// impl, which writes the lowercase hyphenated form. `new_v4` panics when the
/// operating system cannot supply random bytes.
#[verifier::external_body]
pub fn get_uuid() -> (r: String)
    ensures
        uuid_shaped(r@),
{
    uuid::Uuid::new_v4().to_string()
}

/// Relies on serde_json's `Display` for `Value::String`: the JSON string
/// literal for `s`, written by the same escaping routine `serde_json::to_string`
/// uses. Writing into a `String` cannot fail.
#[verifier::external_body]
fn json_string(s: &str) -> (r: String)
    ensures
        r@ == json_quoted(s@),
{
    serde_json::Value::String(s.to_owned()).to_string()
}

/// A record of a change to an existing file: identity, path, metadata,
/// operation, time, content checksum and the label of the matched root.
#[derive(Clone, Debug, PartialEq, Eq)]
pub struct Entry {
    pub id: String,
    pub path: String,
    pub mode: String,
    pub uid: String,
    pub gid: String,
    pub filesize: String,
    pub mtime: String,
    pub atime: String,
    pub ctime: String,
    pub operation: String,
    pub timestamp: String,
    pub checksum: String,
    pub label: String,
}

/// A record of a removal: the file is gone, so it carries no metadata.
#[derive(Clone, Debug, PartialEq, Eq)]
pub struct Rentry {
    pub id: String,
    pub path: String,
    pub operation: String,
    pub timestamp: String,
    pub label: String,
}

/// An audit record: a full record for every operation but removal, a reduced
/// one for removal.
#[derive(Clone, Debug, PartialEq, Eq)]
pub enum AuditRecord {
    Full(Entry),
    Removal(Rentry),
}

/// What a metadata and checksum provider reports of an existing regular file.
/// `checksum` is `None` when the content could not be read.
#[derive(Clone, Debug, PartialEq, Eq)]
pub struct FileMeta {
    pub mode: String,
    pub uid: String,
    pub gid: String,
    pub filesize: String,
    pub mtime: String,
    pub atime: String,
    pub ctime: String,
    pub checksum: Option<String>,
}

/// The members of a JSON object, `"key":value` for each pair, separated by
/// commas; each value is already JSON text and each key a plain name.
pub open spec fn members_text(keys: Seq<Seq<char>>, values: Seq<Seq<char>>) -> Seq<char>
    decreases keys.len(),
{
    if keys.len() == 0 {
        Seq::<char>::empty()
    } else {
        let head = members_text(keys.drop_last(), values.take(keys.len() - 1));
        let sep = if keys.len() == 1 {
            Seq::<char>::empty()
        } else {
            ","@
        };
        head + sep + "\""@ + keys.last() + "\":"@ + values[keys.len() - 1]
    }
}

/// The compact JSON object with the given members.
pub open spec fn object_text(keys: Seq<Seq<char>>, values: Seq<Seq<char>>) -> Seq<char> {
    "{"@ + members_text(keys, values) + "}"@
}

/// The member names of a full record, in order.
pub open spec fn entry_keys() -> Seq<Seq<char>> {
    seq![
        "id"@, "path"@, "mode"@, "uid"@, "gid"@, "filesize"@, "mtime"@, "atime"@, "ctime"@,
        "operation"@, "timestamp"@, "checksum"@, "label"@,
    ]
}

/// The member names of a removal record, in order.
pub open spec fn rentry_keys() -> Seq<Seq<char>> {
    seq!["id"@, "path"@, "operation"@, "timestamp"@, "label"@]
}

/// The compact JSON object of a full record, fields in declaration order.
pub open spec fn entry_json(e: Entry) -> Seq<char> {
    object_text(
        entry_keys(),
        seq![
            json_quoted(e.id@), json_quoted(e.path@), json_quoted(e.mode@), json_quoted(e.uid@),
            json_quoted(e.gid@), json_quoted(e.filesize@), json_quoted(e.mtime@),
            json_quoted(e.atime@), json_quoted(e.ctime@), json_quoted(e.operation@),
            json_quoted(e.timestamp@), json_quoted(e.checksum@), json_quoted(e.label@),
        ],
    )
}

/// The compact JSON object of a removal record, fields in declaration order.
pub open spec fn rentry_json(e: Rentry) -> Seq<char> {
    object_text(
        rentry_keys(),
        seq![
            json_quoted(e.id@), json_quoted(e.path@), json_quoted(e.operation@),
            json_quoted(e.timestamp@), json_quoted(e.label@),
        ],
    )
}

/// The JSON object of a record.
pub open spec fn record_json(r: AuditRecord) -> Seq<char> {
    match r {
        AuditRecord::Full(e) => entry_json(e),
        AuditRecord::Removal(e) => rentry_json(e),
    }
}

/// The identifier of a record.
pub open spec fn record_id(r: AuditRecord) -> Seq<char> {
    match r {
        AuditRecord::Full(e) => e.id@,
        AuditRecord::Removal(e) => e.id@,
    }
}

/// The checksum text a record carries for a provider's checksum.
pub open spec fn checksum_text(c: Option<String>) -> Seq<char> {
    match c {
        Some(s) => s@,
        None => CHECKSUM_UNKNOWN@,
    }
}

/// Whether `r` is the record built from these values: a removal record for
/// `Remove`; otherwise a full record holding `meta` verbatim, or nothing when
/// no metadata was supplied.
pub open spec fn record_built(
    r: Option<AuditRecord>,
    id: Seq<char>,
    path: Seq<char>,
    label: Seq<char>,
    op: Operation,
    timestamp: Seq<char>,
    meta: Option<FileMeta>,
) -> bool {
    if op == Operation::Remove {
        match r {
            Some(AuditRecord::Removal(e)) => {
                &&& e.id@ == id
                &&& e.path@ == path
                &&& e.operation@ == op_name(op)
                &&& e.timestamp@ == timestamp
                &&& e.label@ == label
            },
            _ => false,
        }
    } else {
        match meta {
            None => r is None,
            Some(m) => match r {
                Some(AuditRecord::Full(e)) => {
                    &&& e.id@ == id
                    &&& e.path@ == path
                    &&& e.mode@ == m.mode@
                    &&& e.uid@ == m.uid@
                    &&& e.gid@ == m.gid@
                    &&& e.filesize@ == m.filesize@
                    &&& e.mtime@ == m.mtime@
                    &&& e.atime@ == m.atime@
                    &&& e.ctime@ == m.ctime@
                    &&& e.operation@ == op_name(op)
                    &&& e.timestamp@ == timestamp
                    &&& e.checksum@ == checksum_text(m.checksum)
                    &&& e.label@ == label
                },
                _ => false,
            },
        }
    }
}

/// The operation a raw notification kind stands for.
pub fn classify(kind: EventKind) -> (r: Operation)
    ensures
        r == classify_spec(kind),
{
    match kind {
        EventKind::Create => Operation::Create,
        EventKind::Remove => Operation::Remove,
        EventKind::Modify => Operation::Modify,
        EventKind::Access => Operation::Access,
        EventKind::Any | EventKind::Other => Operation::Unknown,
    }
}

impl Operation {
    /// The name of the operation as records carry it.
    pub fn name(&self) -> (r: String)
        ensures
            r@ == op_name(*self),
    {
        match self {
            Operation::Create => "CREATE".to_owned(),
            Operation::Remove => "REMOVE".to_owned(),
            Operation::Modify => "MODIFY".to_owned(),
            Operation::Access => "ACCESS".to_owned(),
            Operation::Unknown => "UNKNOWN".to_owned(),
        }
    }
}

/// The operation name for a raw notification kind.
pub fn parse_event(kind: EventKind) -> (r: String)
    ensures
        r@ == op_name(classify_spec(kind)),
{
    classify(kind).name()
}

/// The compact JSON object whose members are `keys[i]` with the JSON text
/// `values[i]`. Keys are written between quotes as they are.
pub fn json_object(keys: &Vec<&str>, values: &Vec<String>) -> (r: String)
    requires
        keys.len() == values.len(),
    ensures
        r@ == object_text(keys@.map_values(|k: &str| k@), values@.map_values(|v: String| v@)),
{
    let ghost kv = keys@.map_values(|k: &str| k@);
    let ghost vv = values@.map_values(|v: String| v@);
    let mut out = String::new();
    out.append("{");
    let mut i: usize = 0;
    while i < keys.len()
        invariant
            keys.len() == values.len(),
            i <= keys.len(),
            kv == keys@.map_values(|k: &str| k@),
            vv == values@.map_values(|v: String| v@),
            out@ == "{"@ + members_text(kv.take(i as int), vv.take(i as int)),
        decreases keys.len() - i,
    {
        let ghost before = out@;
        if i > 0 {
            out.append(",");
        }
        out.append("\"");
        out.append(keys[i]);
        out.append("\":");
        out.append(values[i].as_str());
        proof {
            let kn = kv.take(i + 1);
            let vn = vv.take(i + 1);
            assert(kn.drop_last() =~= kv.take(i as int));
            assert(vn.take(i as int) =~= vv.take(i as int));
            assert(kn.last() == keys@[i as int]@);
            assert(vn[i as int] == values@[i as int]@);
            let sep = if i == 0 {
                Seq::<char>::empty()
            } else {
                ","@
            };
            assert(out@ =~= before + sep + "\""@ + kn.last() + "\":"@ + vn[i as int]);
        }
        i = i + 1;
    }
    out.append("}");
    assert(kv.take(keys.len() as int) =~= kv);
    assert(vv.take(keys.len() as int) =~= vv);
    out
}

/// The JSON string literals of `fields`, in order.
fn quote_all(fields: &Vec<&String>) -> (r: Vec<String>)
    ensures
        r@.map_values(|v: String| v@) == fields@.map_values(|f: &String| json_quoted(f@)),
{
    let mut out: Vec<String> = Vec::new();
    let mut i: usize = 0;
    while i < fields.len()
        invariant
            i <= fields.len(),
            out@.map_values(|v: String| v@) == fields@.take(i as int).map_values(
                |f: &String| json_quoted(f@),
            ),
        decreases fields.len() - i,
    {
        let q = json_string(fields[i].as_str());
        let ghost prev = out@;
        assert(prev.map_values(|v: String| v@).len() == prev.len());
        assert(fields@.take(i as int).map_values(|f: &String| json_quoted(f@)).len() == i);
        assert(prev.len() == i);
        assert(q@ == json_quoted(fields@[i as int]@));
        out.push(q);
        assert(out@ == prev.push(q));
        i = i + 1;
        proof {
            let lhs = out@.map_values(|v: String| v@);
            let rhs = fields@.take(i as int).map_values(|f: &String| json_quoted(f@));
            let old_rhs = fields@.take(i - 1).map_values(|f: &String| json_quoted(f@));
            assert(lhs.len() == rhs.len());
            assert forall|j: int| 0 <= j < lhs.len() implies lhs[j] == rhs[j] by {
                if j < i - 1 {
                    assert(out@[j] == prev[j]);
                    assert(prev.map_values(|v: String| v@)[j] == old_rhs[j]);
                    assert(fields@.take(i as int)[j] == fields@.take(i - 1)[j]);
                } else {
                    assert(out@[j] == q);
                }
            }
            assert(lhs =~= rhs);
        }
    }
    assert(fields@.take(fields.len() as int) =~= fields@);
    out
}

impl Entry {
    /// The record as one compact JSON object.
    pub fn format_json(&self) -> (r: String)
        ensures
            r@ == entry_json(*self),
    {
        let keys = vec![
            "id", "path", "mode", "uid", "gid", "filesize", "mtime", "atime", "ctime",
            "operation", "timestamp", "checksum", "label",
        ];
        let fields = vec![
            &self.id, &self.path, &self.mode, &self.uid, &self.gid, &self.filesize, &self.mtime,
            &self.atime, &self.ctime, &self.operation, &self.timestamp, &self.checksum,
            &self.label,
        ];
        let values = quote_all(&fields);
        assert(keys@.map_values(|k: &str| k@) =~= entry_keys());
        assert(fields@.map_values(|f: &String| json_quoted(f@)) =~= seq![
            json_quoted(self.id@), json_quoted(self.path@), json_quoted(self.mode@),
            json_quoted(self.uid@), json_quoted(self.gid@), json_quoted(self.filesize@),
            json_quoted(self.mtime@), json_quoted(self.atime@), json_quoted(self.ctime@),
            json_quoted(self.operation@), json_quoted(self.timestamp@),
            json_quoted(self.checksum@), json_quoted(self.label@),
        ]);
        json_object(&keys, &values)
    }
}

impl Rentry {
    /// The record as one compact JSON object.
    pub fn format_json(&self) -> (r: String)
        ensures
            r@ == rentry_json(*self),
    {
        let keys = vec!["id", "path", "operation", "timestamp", "label"];
        let fields = vec![&self.id, &self.path, &self.operation, &self.timestamp, &self.label];
        let values = quote_all(&fields);
        assert(keys@.map_values(|k: &str| k@) =~= rentry_keys());
        assert(fields@.map_values(|f: &String| json_quoted(f@)) =~= seq![
            json_quoted(self.id@), json_quoted(self.path@), json_quoted(self.operation@),
            json_quoted(self.timestamp@), json_quoted(self.label@),
        ]);
        json_object(&keys, &values)
    }
}

impl AuditRecord {
    /// The record as one compact JSON object.
    pub fn format_json(&self) -> (r: String)
        ensures
            r@ == record_json(*self),
    {
        match self {
            AuditRecord::Full(e) => e.format_json(),
            AuditRecord::Removal(e) => e.format_json(),
        }
    }

    /// The record as one line of the event log: its JSON object and a newline.
    pub fn to_line(&self) -> (r: String)
        ensures
            r@ == record_json(*self) + "\n"@,
    {
        let mut out = self.format_json();
        out.append("\n");
        out
    }
}

/// Builds the record for a matched path: a removal record for `Remove`, which
/// needs no metadata; otherwise a full record from `meta`, with the `unknown`
/// marker when no checksum was computed, or `None` when `meta` is missing.
pub fn assemble(
    id: String,
    path: &str,
    label: String,
    op: Operation,
    timestamp: String,
    meta: Option<FileMeta>,
) -> (r: Option<AuditRecord>)
    ensures
        record_built(r, id@, path@, label@, op, timestamp@, meta),
{
    if op == Operation::Remove {
        return Some(
            AuditRecord::Removal(
                Rentry { id, path: path.to_owned(), operation: op.name(), timestamp, label },
            ),
        );
    }
    match meta {
        None => None,
        Some(m) => {
            let checksum = match m.checksum {
                Some(c) => c,
                None => CHECKSUM_UNKNOWN.to_owned(),
            };
            Some(
                AuditRecord::Full(
                    Entry {
                        id,
                        path: path.to_owned(),
                        mode: m.mode,
                        uid: m.uid,
                        gid: m.gid,
                        filesize: m.filesize,
                        mtime: m.mtime,
                        atime: m.atime,
                        ctime: m.ctime,
                        operation: op.name(),
                        timestamp,
                        checksum,
                        label,
                    },
                ),
            )
        },
    }
}

/// A removal record never holds metadata or a checksum, and every other
/// operation yields a full record (with a checksum that is never empty when it
/// is the marker) as soon as metadata is supplied.
pub proof fn lemma_record_shape(
    r: Option<AuditRecord>,
    id: Seq<char>,
    path: Seq<char>,
    label: Seq<char>,
    op: Operation,
    timestamp: Seq<char>,
    meta: Option<FileMeta>,
)
    requires
        record_built(r, id, path, label, op, timestamp, meta),
    ensures
        op == Operation::Remove ==> r matches Some(AuditRecord::Removal(_)),
        op != Operation::Remove && meta is Some ==> r matches Some(AuditRecord::Full(_)),
        op != Operation::Remove && meta is None ==> r is None,
        op != Operation::Remove && meta is Some && meta->0.checksum is None ==> (r matches Some(
            AuditRecord::Full(e),
        ) && e.checksum@ == CHECKSUM_UNKNOWN@ && e.checksum@.len() > 0),
{
    reveal_strlit("unknown");
}

} // verus!
