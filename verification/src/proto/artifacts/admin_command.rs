//! Admin commands: what an operator orders a registry to do.
use crate::proto::canonical;
use crate::proto::canonical::{canonical_decode, canonical_encode, CborValue, MAX_NESTING_DEPTH};
use crate::proto::item;
use crate::proto::item::Item;
use crate::proto::reader;
use crate::proto::reader::{Fault, MapReader, ProtoError};
use crate::proto::record;
use crate::proto::roundtrip;
use crate::proto::tags;
use vstd::prelude::*;

verus! {

/// `{v, cmd, args, signer_fp, seq, nonce, ts, sig}`. `args` is any value: the set of commands is open,
/// so their arguments are carried as they are.
#[derive(Debug, Clone, PartialEq)]
pub struct AdminCommand {
    pub v: u8,
    pub cmd: String,
    pub args: CborValue,
    pub signer_fp: Vec<u8>,
    pub seq: u64,
    pub nonce: Vec<u8>,
    pub ts: u64,
    pub sig: Vec<u8>,
}

/// The field names of an admin command.
pub const ADMIN_COMMAND_FIELDS: [&'static str; 8] = [
    "v",
    "cmd",
    "args",
    "signer_fp",
    "seq",
    "nonce",
    "ts",
    "sig",
];

/// The contents of an admin command.
pub struct AdminCommandModel {
    pub v: u8,
    pub cmd: Seq<char>,
    pub args: Item,
    pub signer_fp: Seq<u8>,
    pub seq: u64,
    pub nonce: Seq<u8>,
    pub ts: u64,
    pub sig: Seq<u8>,
}

impl View for AdminCommand {
    type V = AdminCommandModel;

    open spec fn view(&self) -> AdminCommandModel {
        AdminCommandModel {
            v: self.v,
            cmd: self.cmd@,
            args: self.args@,
            signer_fp: self.signer_fp@,
            seq: self.seq,
            nonce: self.nonce@,
            ts: self.ts,
            sig: self.sig@,
        }
    }
}

impl AdminCommandModel {
    /// The fields that are signed: all but `sig`.
    pub open spec fn unsigned_fields(self) -> Seq<(Seq<char>, Item)> {
        seq![
            ("v"@, Item::Uint(self.v as u64)),
            ("cmd"@, Item::Text(self.cmd)),
            ("args"@, self.args),
            ("signer_fp"@, Item::Bytes(self.signer_fp)),
            ("seq"@, Item::Uint(self.seq)),
            ("nonce"@, Item::Bytes(self.nonce)),
            ("ts"@, Item::Uint(self.ts)),
        ]
    }

    /// All fields.
    pub open spec fn fields(self) -> Seq<(Seq<char>, Item)> {
        self.unsigned_fields().push(("sig"@, Item::Bytes(self.sig)))
    }

    /// The canonical bytes of the admin command.
    pub open spec fn bytes(self) -> Seq<u8> {
        item::encoding(item::record(self.fields()))
    }

    /// What is signed: the tag and the canonical bytes of the other fields.
    pub open spec fn signed_bytes(self) -> Seq<u8> {
        tags::ADMIN_COMMAND_V1@ + item::encoding(item::record(self.unsigned_fields()))
    }

    /// The admin command that an item stands for.
    pub open spec fn read(item: Item) -> Result<AdminCommandModel, Fault> {
        match reader::closed_map(item, reader::names(ADMIN_COMMAND_FIELDS@)) {
            Err(f) => Err(f),
            Ok(m) => {
                let v = reader::u8_field(m, "v"@);
                let cmd = reader::text_field(m, "cmd"@);
                let args = reader::required(m, "args"@);
                let signer_fp = reader::bytes_field(m, "signer_fp"@);
                let seq = reader::uint_field(m, "seq"@);
                let nonce = reader::bytes_field(m, "nonce"@);
                let ts = reader::uint_field(m, "ts"@);
                let sig = reader::bytes_field(m, "sig"@);
                let found = reader::fault(v);
                let found = reader::first(found, reader::fault(cmd));
                let found = reader::first(found, reader::fault(args));
                let found = reader::first(found, reader::fault(signer_fp));
                let found = reader::first(found, reader::fault(seq));
                let found = reader::first(found, reader::fault(nonce));
                let found = reader::first(found, reader::fault(ts));
                let found = reader::first(found, reader::fault(sig));
                reader::unless(
                    found,
                    AdminCommandModel {
                        v: v->Ok_0,
                        cmd: cmd->Ok_0,
                        args: args->Ok_0,
                        signer_fp: signer_fp->Ok_0,
                        seq: seq->Ok_0,
                        nonce: nonce->Ok_0,
                        ts: ts->Ok_0,
                        sig: sig->Ok_0,
                    },
                )
            },
        }
    }

    /// The admin command that canonical bytes stand for.
    pub open spec fn parse(bytes: Seq<u8>) -> Result<AdminCommandModel, Fault> {
        match canonical::decoding(bytes) {
            Err(e) => Err(Fault::Cbor(e)),
            Ok(item) => AdminCommandModel::read(item),
        }
    }
}

proof fn lemma_fields(m: AdminCommandModel)
    requires
        item::keys_unique(m.args),
    ensures
        record::names_distinct(m.fields()),
        record::names_distinct(m.unsigned_fields()),
        record::values_unique(m.fields()),
        record::values_unique(m.unsigned_fields()),
        item::nests_within(m.args, MAX_NESTING_DEPTH - 1) ==> record::values_nest(
            m.fields(),
            MAX_NESTING_DEPTH - 1,
        ),
        record::names_among(m.fields(), reader::names(ADMIN_COMMAND_FIELDS@)),
{
    reveal_strlit("v");
    reveal_strlit("cmd");
    reveal_strlit("args");
    reveal_strlit("signer_fp");
    reveal_strlit("seq");
    reveal_strlit("nonce");
    reveal_strlit("ts");
    reveal_strlit("sig");
    assert("v"@.len() == 1);
    assert("cmd"@.len() == 3);
    assert("args"@.len() == 4);
    assert("signer_fp"@.len() == 9);
    assert("seq"@.len() == 3);
    assert("nonce"@.len() == 5);
    assert("ts"@.len() == 2);
    assert("sig"@.len() == 3);
    assert("cmd"@[0] != "seq"@[0]);
    assert("cmd"@[0] != "sig"@[0]);
    assert("seq"@[1] != "sig"@[1]);
    let listed = reader::names(ADMIN_COMMAND_FIELDS@);
    let fields = m.fields();
    assert forall|i: int| 0 <= i < fields.len() implies listed.contains((#[trigger] fields[i]).0) by {
        assert(fields[i].0 == listed[i]);
    }
}

impl AdminCommand {
    pub fn unsigned_entries(&self) -> (entries: Vec<(&'static str, CborValue)>)
        ensures
            canonical::fields_of(entries@) == self@.unsigned_fields(),
    {
        let entries: Vec<(&'static str, CborValue)> = vec![
            ("v", CborValue::uint(self.v as u64)),
            ("cmd", CborValue::text(self.cmd.as_str())),
            ("args", self.args.clone()),
            ("signer_fp", CborValue::bytes(self.signer_fp.as_slice())),
            ("seq", CborValue::uint(self.seq)),
            ("nonce", CborValue::bytes(self.nonce.as_slice())),
            ("ts", CborValue::uint(self.ts)),
        ];
        assert(canonical::fields_of(entries@) =~= self@.unsigned_fields());
        entries
    }

    pub fn unsigned_cbor(&self) -> (value: CborValue)
        ensures
            value@ == item::record(self@.unsigned_fields()),
    {
        CborValue::map(self.unsigned_entries())
    }

    pub fn to_cbor(&self) -> (value: CborValue)
        ensures
            value@ == item::record(self@.fields()),
    {
        let mut entries = self.unsigned_entries();
        entries.push(("sig", CborValue::bytes(self.sig.as_slice())));
        assert(canonical::fields_of(entries@) =~= self@.fields());
        CborValue::map(entries)
    }

    pub fn to_canonical_bytes(&self) -> (bytes: Vec<u8>)
        requires
            item::keys_unique(self@.args),
        ensures
            bytes@ == self@.bytes(),
            item::lengths_fit(item::record(self@.fields())),
    {
        proof {
            lemma_fields(self@);
            record::lemma_record_unique(self@.fields());
        }
        canonical_encode(&self.to_cbor())
    }

    pub fn from_cbor(v: &CborValue) -> (r: Result<Self, ProtoError>)
        ensures
            reader::seen(r) == AdminCommandModel::read(v@),
    {
        let m = MapReader::new(v)?;
        m.deny_unknown_fields(ADMIN_COMMAND_FIELDS.as_slice())?;
        Ok(
            AdminCommand {
                v: m.u8("v")?,
                cmd: m.text("cmd")?,
                args: m.require("args")?.clone(),
                signer_fp: m.bytes("signer_fp")?,
                seq: m.u64("seq")?,
                nonce: m.bytes("nonce")?,
                ts: m.u64("ts")?,
                sig: m.bytes("sig")?,
            },
        )
    }

    pub fn from_canonical_bytes(bytes: &[u8]) -> (r: Result<Self, ProtoError>)
        ensures
            reader::seen(r) == AdminCommandModel::parse(bytes@),
    {
        match canonical_decode(bytes) {
            Ok(value) => Self::from_cbor(&value),
            Err(e) => Err(ProtoError::Cbor(e)),
        }
    }

    /// The tag followed by the canonical bytes of every field but `sig`.
    pub fn signing_input(&self) -> (input: Vec<u8>)
        requires
            item::keys_unique(self@.args),
        ensures
            input@ == self@.signed_bytes(),
    {
        proof {
            lemma_fields(self@);
            record::lemma_record_unique(self@.unsigned_fields());
        }
        tags::signing_input(
            tags::ADMIN_COMMAND_V1.as_slice(),
            canonical_encode(&self.unsigned_cbor()).as_slice(),
        )
    }
}

/// Parsing the canonical bytes of an admin command gives the admin command back, with the maps inside its
/// arguments in canonical order.
pub proof fn law_admin_command_round_trip(m: AdminCommandModel)
    requires
        item::lengths_fit(item::record(m.fields())),
        item::keys_unique(m.args),
        item::nests_within(m.args, MAX_NESTING_DEPTH - 1),
    ensures
        AdminCommandModel::parse(m.bytes()) == Ok::<AdminCommandModel, Fault>(
            (AdminCommandModel { args: item::canonical_form(m.args), ..m }),
        ),
{
    let fields = m.fields();
    lemma_fields(m);
    record::lemma_record_unique(fields);
    record::lemma_record_nests(fields, MAX_NESTING_DEPTH as int);
    roundtrip::law_decode_of_encode(item::record(fields));
    let entries = record::lemma_canonical_record_closed(
        fields,
        reader::names(ADMIN_COMMAND_FIELDS@),
    );
    assert(fields[0].0 == "v"@);
    assert(fields[1].0 == "cmd"@);
    assert(fields[2].0 == "args"@);
    assert(fields[3].0 == "signer_fp"@);
    assert(fields[4].0 == "seq"@);
    assert(fields[5].0 == "nonce"@);
    assert(fields[6].0 == "ts"@);
    assert(fields[7].0 == "sig"@);
    assert(AdminCommandModel::read(Item::Mapping(entries)) == Ok::<AdminCommandModel, Fault>(
        AdminCommandModel { args: item::canonical_form(m.args), ..m },
    ));
}

/// Bytes that parse as an admin command are its canonical bytes: it has one encoding only.
pub proof fn law_admin_command_unique_bytes(bytes: Seq<u8>)
    ensures
        AdminCommandModel::parse(bytes) matches Ok(m) ==> m.bytes() == bytes && item::lengths_fit(
            item::record(m.fields()),
        ),
{
    if let Ok(m) = AdminCommandModel::parse(bytes) {
        roundtrip::law_encode_of_decode(bytes);
        let entries = canonical::decoding(bytes)->Ok_0->Mapping_0;
        let fields = m.fields();
        record::lemma_found_in_order(entries, "args"@);
        roundtrip::lemma_in_order_is_canonical(m.args);
        lemma_fields(m);
        assert(fields[0].0 == "v"@);
        assert(fields[1].0 == "cmd"@);
        assert(fields[2].0 == "args"@);
        assert(fields[3].0 == "signer_fp"@);
        assert(fields[4].0 == "seq"@);
        assert(fields[5].0 == "nonce"@);
        assert(fields[6].0 == "ts"@);
        assert(fields[7].0 == "sig"@);
        assert(record::agrees(entries, fields, "v"@));
        assert(record::agrees(entries, fields, "cmd"@));
        assert(record::agrees(entries, fields, "args"@));
        assert(record::agrees(entries, fields, "signer_fp"@));
        assert(record::agrees(entries, fields, "seq"@));
        assert(record::agrees(entries, fields, "nonce"@));
        assert(record::agrees(entries, fields, "ts"@));
        assert(record::agrees(entries, fields, "sig"@));
        record::lemma_record_rebuilt(entries, fields, reader::names(ADMIN_COMMAND_FIELDS@));
        record::lemma_record_unique(fields);
        roundtrip::lemma_canonical_form_fits(item::record(fields));
        roundtrip::law_canonical_form_same_bytes(item::record(fields));
    }
}

/// A signature covers everything else, and nothing more: the signed bytes of two admin commands are
/// the same exactly where the commands differ at most in their signatures and in the order in which
/// their arguments list the entries of mappings.
pub proof fn law_admin_command_signature_covers(a: AdminCommandModel, b: AdminCommandModel)
    requires
        item::lengths_fit(item::record(a.unsigned_fields())),
        item::lengths_fit(item::record(b.unsigned_fields())),
        item::keys_unique(a.args),
        item::keys_unique(b.args),
    ensures
        a.signed_bytes() == b.signed_bytes() <==> a == (AdminCommandModel {
            sig: a.sig,
            args: a.args,
            ..b
        }) && item::same_item(a.args, b.args),
{
    lemma_fields(a);
    lemma_fields(b);
    let fa = a.unsigned_fields();
    let fb = b.unsigned_fields();
    if a.signed_bytes() == b.signed_bytes() {
        record::lemma_signed_alike(tags::ADMIN_COMMAND_V1@, fa, fb);
        assert(fa[0].0 == fb[0].0);
        assert(fa[1].0 == fb[1].0);
        assert(fa[2].0 == fb[2].0);
        assert(fa[3].0 == fb[3].0);
        assert(fa[4].0 == fb[4].0);
        assert(fa[5].0 == fb[5].0);
        assert(fa[6].0 == fb[6].0);
        roundtrip::lemma_same_form(a.args, b.args);
    } else if a == (AdminCommandModel { sig: a.sig, args: a.args, ..b }) && item::same_item(
        a.args,
        b.args,
    ) {
        record::lemma_record_unique(fa);
        record::lemma_record_unique(fb);
        record::lemma_records_same(fa, fb);
        roundtrip::law_same_items_same_bytes(item::record(fa), item::record(fb));
    }
}

// ---- the names on the wire ----

/// What stands on the wire: an item is the same as an admin command exactly where it is a map with
/// nothing but these names, and under each of them what the value holds there.
pub proof fn law_admin_command_wire(v: Item, e: AdminCommand)
    requires
        item::keys_unique(v),
        item::keys_unique(e.args@),
    ensures
        item::same_item(v, item::record(e@.fields())) <==> {
            &&& record::is_map_of(v, 8)
            &&& record::holds(v, "v"@, Item::Uint(e.v as u64))
            &&& record::holds(v, "cmd"@, Item::Text(e.cmd@))
            &&& record::holds(v, "args"@, e.args@)
            &&& record::holds(v, "signer_fp"@, Item::Bytes(e.signer_fp@))
            &&& record::holds(v, "seq"@, Item::Uint(e.seq))
            &&& record::holds(v, "nonce"@, Item::Bytes(e.nonce@))
            &&& record::holds(v, "ts"@, Item::Uint(e.ts))
            &&& record::holds(v, "sig"@, Item::Bytes(e.sig@))
        },
        e@.bytes() == item::encoding(item::record(e@.fields())),
{
    let fields = e@.fields();
    lemma_fields(e@);
    record::lemma_holds_all(v, fields);
    assert(fields[0] == ("v"@, Item::Uint(e.v as u64)));
    assert(fields[1] == ("cmd"@, Item::Text(e.cmd@)));
    assert(fields[2] == ("args"@, e.args@));
    assert(fields[3] == ("signer_fp"@, Item::Bytes(e.signer_fp@)));
    assert(fields[4] == ("seq"@, Item::Uint(e.seq)));
    assert(fields[5] == ("nonce"@, Item::Bytes(e.nonce@)));
    assert(fields[6] == ("ts"@, Item::Uint(e.ts)));
    assert(fields[7] == ("sig"@, Item::Bytes(e.sig@)));
}

/// What is signed: the tag, then the map of everything but the signature.
pub proof fn law_admin_command_signed_wire(v: Item, e: AdminCommand)
    requires
        item::keys_unique(v),
        item::keys_unique(e.args@),
    ensures
        item::same_item(v, item::record(e@.unsigned_fields())) <==> {
            &&& record::is_map_of(v, 7)
            &&& record::holds(v, "v"@, Item::Uint(e.v as u64))
            &&& record::holds(v, "cmd"@, Item::Text(e.cmd@))
            &&& record::holds(v, "args"@, e.args@)
            &&& record::holds(v, "signer_fp"@, Item::Bytes(e.signer_fp@))
            &&& record::holds(v, "seq"@, Item::Uint(e.seq))
            &&& record::holds(v, "nonce"@, Item::Bytes(e.nonce@))
            &&& record::holds(v, "ts"@, Item::Uint(e.ts))
        },
        e@.signed_bytes() == tags::ADMIN_COMMAND_V1@
            + item::encoding(item::record(e@.unsigned_fields())),
{
    let fields = e@.unsigned_fields();
    lemma_fields(e@);
    record::lemma_holds_all(v, fields);
    assert(fields[0] == ("v"@, Item::Uint(e.v as u64)));
    assert(fields[1] == ("cmd"@, Item::Text(e.cmd@)));
    assert(fields[2] == ("args"@, e.args@));
    assert(fields[3] == ("signer_fp"@, Item::Bytes(e.signer_fp@)));
    assert(fields[4] == ("seq"@, Item::Uint(e.seq)));
    assert(fields[5] == ("nonce"@, Item::Bytes(e.nonce@)));
    assert(fields[6] == ("ts"@, Item::Uint(e.ts)));
}

/// What is read: every part of an admin command is what stood under its name.
pub proof fn law_admin_command_read(v: Item, e: AdminCommand)
    requires
        AdminCommandModel::read(v) == Ok::<AdminCommandModel, Fault>(e@),
    ensures
        record::holds(v, "v"@, Item::Uint(e.v as u64)),
        record::holds(v, "cmd"@, Item::Text(e.cmd@)),
        record::holds(v, "signer_fp"@, Item::Bytes(e.signer_fp@)),
        record::holds(v, "seq"@, Item::Uint(e.seq)),
        record::holds(v, "nonce"@, Item::Bytes(e.nonce@)),
        record::holds(v, "ts"@, Item::Uint(e.ts)),
        record::holds(v, "sig"@, Item::Bytes(e.sig@)),
        record::holds(v, "args"@, e.args@),
{
    let entries = v->Mapping_0;
    record::lemma_found_holds(entries, "v"@);
    record::lemma_found_holds(entries, "cmd"@);
    record::lemma_found_holds(entries, "signer_fp"@);
    record::lemma_found_holds(entries, "seq"@);
    record::lemma_found_holds(entries, "nonce"@);
    record::lemma_found_holds(entries, "ts"@);
    record::lemma_found_holds(entries, "sig"@);
    record::lemma_found_holds(entries, "args"@);
}

/// An item without duplicate keys that is read as an admin command is the record of it, up to the
/// order of its entries: nothing is missing, and nothing else is there. Conversely, what is the
/// record of a command is read as it, up to the order of the entries of its arguments.
pub proof fn law_admin_command_values(v: Item, m: AdminCommandModel)
    requires
        item::keys_unique(v),
        item::keys_unique(m.args),
    ensures
        AdminCommandModel::read(v) == Ok::<AdminCommandModel, Fault>(m) ==> item::same_item(
            v,
            item::record(m.fields()),
        ),
        item::same_item(v, item::record(m.fields())) ==> (AdminCommandModel::read(v) matches Ok(n)
            && item::same_item(n.args, m.args) && n == (AdminCommandModel { args: n.args, ..m })),
{
    if let Item::Mapping(entries) = v {
        let fields = m.fields();
        let listed = reader::names(ADMIN_COMMAND_FIELDS@);
        lemma_fields(m);
        record::lemma_field_values(fields);
        record::lemma_stands_for(entries, fields, listed);
        assert(listed[0] == "v"@);
        assert(listed[1] == "cmd"@);
        assert(listed[2] == "args"@);
        assert(listed[3] == "signer_fp"@);
        assert(listed[4] == "seq"@);
        assert(listed[5] == "nonce"@);
        assert(listed[6] == "ts"@);
        assert(listed[7] == "sig"@);
        assert(fields[0].0 == "v"@);
        assert(fields[1].0 == "cmd"@);
        assert(fields[2].0 == "args"@);
        assert(fields[3].0 == "signer_fp"@);
        assert(fields[4].0 == "seq"@);
        assert(fields[5].0 == "nonce"@);
        assert(fields[6].0 == "ts"@);
        assert(fields[7].0 == "sig"@);
        record::lemma_same_as_itself(m.args);
        if AdminCommandModel::read(v) == Ok::<AdminCommandModel, Fault>(m) {
            assert(record::stands_for(entries, fields, listed));
        }
        if record::stands_for(entries, fields, listed) {
            assert(AdminCommandModel::read(v) is Ok);
        }
    }
}

/// The fields are looked at in this order, once no foreign name is there, and the first that is
/// missing or wrong is the one that is named.
pub proof fn law_admin_command_first_fault(entries: Seq<(Item, Item)>)
    ensures
        ({
            let r = AdminCommandModel::read(Item::Mapping(entries));
            if let Some(g) = reader::foreign_key(entries, reader::names(ADMIN_COMMAND_FIELDS@)) {
                r matches Err(f) && f == g
            } else {
                if reader::u8_field(entries, "v"@) is Err {
                    r matches Err(f) && f == reader::u8_field(entries, "v"@)->Err_0
                } else if reader::text_field(entries, "cmd"@) is Err {
                    r matches Err(f) && f == reader::text_field(entries, "cmd"@)->Err_0
                } else if reader::required(entries, "args"@) is Err {
                    r matches Err(f) && f == reader::required(entries, "args"@)->Err_0
                } else if reader::bytes_field(entries, "signer_fp"@) is Err {
                    r matches Err(f) && f == reader::bytes_field(entries, "signer_fp"@)->Err_0
                } else if reader::uint_field(entries, "seq"@) is Err {
                    r matches Err(f) && f == reader::uint_field(entries, "seq"@)->Err_0
                } else if reader::bytes_field(entries, "nonce"@) is Err {
                    r matches Err(f) && f == reader::bytes_field(entries, "nonce"@)->Err_0
                } else if reader::uint_field(entries, "ts"@) is Err {
                    r matches Err(f) && f == reader::uint_field(entries, "ts"@)->Err_0
                } else if reader::bytes_field(entries, "sig"@) is Err {
                    r matches Err(f) && f == reader::bytes_field(entries, "sig"@)->Err_0
                } else {
                    r is Ok
                }
            }
        }),
{
}

} // verus!
