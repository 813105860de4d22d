//! The manifest route: the body is parsed as a package manifest in the
//! declared format, gated on a magic keyword, and the toy orders under the
//! package metadata are extracted and printed one per line.

use vstd::prelude::*;
use vstd::string::StringExecFns;

use crate::chars::chars_to_string;
use crate::chars::dec_text;
use crate::chars::push_dec;
use crate::reply::Reply;
use crate::reply::reply_is;

verus! {

#[verifier::external_type_specification]
#[verifier::external_body]
pub struct ExValue(toml::Value);

/// What the route reads out of a parsed manifest: the package, if any, with
/// its local keywords and its raw metadata value.
pub struct ManifestData {
    pub package: Option<PackageData>,
}

/// The package fields the route reads. `keywords` is the locally written
/// list, `None` where the field is absent or inherited from a workspace.
pub struct PackageData {
    pub keywords: Option<Vec<String>>,
    pub metadata: Option<toml::Value>,
}

/// The model of a parsed manifest the contracts speak of: the package, if
/// any, with its local keywords as plain text and its metadata value.
pub struct ManifestModel {
    pub package: Option<PackageModel>,
}

pub struct PackageModel {
    pub keywords: Option<Seq<Seq<char>>>,
    pub metadata: Option<toml::Value>,
}

pub open spec fn keywords_view(kw: Option<Vec<String>>) -> Option<Seq<Seq<char>>> {
    match kw {
        Some(ks) => Some(ks.deep_view()),
        None => None,
    }
}

pub open spec fn package_model(p: PackageData) -> PackageModel {
    PackageModel { keywords: keywords_view(p.keywords), metadata: p.metadata }
}

pub open spec fn manifest_model(m: ManifestData) -> ManifestModel {
    ManifestModel {
        package: match m.package {
            Some(p) => Some(package_model(p)),
            None => None,
        },
    }
}

pub open spec fn data_model(r: Option<ManifestData>) -> Option<ManifestModel> {
    match r {
        Some(m) => Some(manifest_model(m)),
        None => None,
    }
}

/// What parsing the text as a TOML manifest yields: a function of the text
/// alone.
pub uninterp spec fn toml_manifest_of(s: Seq<char>) -> Option<ManifestModel>;

/// What parsing the text as a YAML manifest yields: a function of the text
/// alone.
pub uninterp spec fn yaml_manifest_of(s: Seq<char>) -> Option<ManifestModel>;

/// What parsing the text as a JSON manifest yields: a function of the text
/// alone.
pub uninterp spec fn json_manifest_of(s: Seq<char>) -> Option<ManifestModel>;

/// Relies on cargo_manifest's `FromStr` for `Manifest` (TOML): parses the
/// text as a package manifest; the package's local keywords
/// (`MaybeInherited::as_local`) and its metadata table are handed on.
#[verifier::external_body]
fn parse_toml_manifest(s: &str) -> (r: Option<ManifestData>)
    ensures
        data_model(r) == toml_manifest_of(s@),
{
    match s.parse::<cargo_manifest::Manifest>() {
        Ok(m) => Some(
            ManifestData {
                package: m.package.map(
                    |p| PackageData {
                        keywords: p.keywords.and_then(|k| k.as_local()),
                        metadata: p.metadata,
                    },
                ),
            },
        ),
        Err(_) => None,
    }
}

/// Relies on serde_yaml's `from_str` for cargo_manifest's `Manifest`: as the
/// TOML wrapper, for a YAML body.
#[verifier::external_body]
fn parse_yaml_manifest(s: &str) -> (r: Option<ManifestData>)
    ensures
        data_model(r) == yaml_manifest_of(s@),
{
    match serde_yaml::from_str::<cargo_manifest::Manifest>(s) {
        Ok(m) => Some(
            ManifestData {
                package: m.package.map(
                    |p| PackageData {
                        keywords: p.keywords.and_then(|k| k.as_local()),
                        metadata: p.metadata,
                    },
                ),
            },
        ),
        Err(_) => None,
    }
}

/// Relies on serde_json's `from_str` for cargo_manifest's `Manifest`: as the
/// TOML wrapper, for a JSON body.
#[verifier::external_body]
fn parse_json_manifest(s: &str) -> (r: Option<ManifestData>)
    ensures
        data_model(r) == json_manifest_of(s@),
{
    match serde_json::from_str::<cargo_manifest::Manifest>(s) {
        Ok(m) => Some(
            ManifestData {
                package: m.package.map(
                    |p| PackageData {
                        keywords: p.keywords.and_then(|k| k.as_local()),
                        metadata: p.metadata,
                    },
                ),
            },
        ),
        Err(_) => None,
    }
}

/// What looking `key` up in `v` yields: the entry of a table value under
/// that key, nothing otherwise. A function of the value and key alone.
pub uninterp spec fn lookup_of(v: toml::Value, key: Seq<char>) -> Option<toml::Value>;

/// The element list of an array value, nothing otherwise.
pub uninterp spec fn array_model(v: toml::Value) -> Option<Seq<toml::Value>>;

/// The text of a string value, nothing otherwise.
pub uninterp spec fn str_model(v: toml::Value) -> Option<Seq<char>>;

/// The value of an integer value, nothing otherwise.
pub uninterp spec fn int_model(v: toml::Value) -> Option<i64>;

/// Relies on `toml::Value::get`: looks a key up in a table value; `None` for
/// a missing key or for a value that is not a table. The result depends on
/// the value and the key alone.
#[verifier::external_body]
fn value_get<'a>(v: &'a toml::Value, key: &str) -> (r: Option<&'a toml::Value>)
    ensures
        match r {
            Some(x) => lookup_of(*v, key@) == Some(*x),
            None => lookup_of(*v, key@) is None,
        },
{
    v.get(key)
}

/// Relies on `toml::Value::as_array`: the element list of an array value,
/// depending on the value alone.
#[verifier::external_body]
fn value_as_array<'a>(v: &'a toml::Value) -> (r: Option<&'a Vec<toml::Value>>)
    ensures
        match r {
            Some(a) => array_model(*v) == Some(a@),
            None => array_model(*v) is None,
        },
{
    v.as_array()
}

/// Relies on `toml::Value::as_str`: the text of a string value, depending on
/// the value alone.
#[verifier::external_body]
fn value_as_str<'a>(v: &'a toml::Value) -> (r: Option<&'a str>)
    ensures
        match r {
            Some(s) => str_model(*v) == Some(s@),
            None => str_model(*v) is None,
        },
{
    v.as_str()
}

/// Relies on `toml::Value::as_integer`: the value of an integer value,
/// depending on the value alone.
#[verifier::external_body]
fn value_as_integer(v: &toml::Value) -> (r: Option<i64>)
    ensures
        r == int_model(*v),
{
    v.as_integer()
}

/// One entry of the `orders` list, reduced to what the route reads: a table
/// holding a string `item` and an integer `quantity` is a candidate; an
/// entry of any other shape is malformed and silently dropped.
pub enum OrderEntry {
    Candidate { item: String, quantity: i64 },
    Malformed,
}

/// The mathematical shape of one order entry.
pub enum OrderEntryModel {
    Candidate { item: Seq<char>, quantity: int },
    Malformed,
}

impl View for OrderEntry {
    type V = OrderEntryModel;

    open spec fn view(&self) -> OrderEntryModel {
        match self {
            OrderEntry::Candidate { item, quantity } => OrderEntryModel::Candidate {
                item: item@,
                quantity: *quantity as int,
            },
            OrderEntry::Malformed => OrderEntryModel::Malformed,
        }
    }
}

impl DeepView for OrderEntry {
    type V = OrderEntryModel;

    open spec fn deep_view(&self) -> OrderEntryModel {
        self.view()
    }
}

/// The line one entry contributes: a candidate whose quantity fits an
/// unsigned 32-bit value is kept as (item, quantity); anything else is
/// dropped.
pub open spec fn entry_line(e: OrderEntryModel) -> Seq<(Seq<char>, int)> {
    match e {
        OrderEntryModel::Candidate { item, quantity } => if 0 <= quantity <= 0xffff_ffff {
            seq![(item, quantity)]
        } else {
            Seq::<(Seq<char>, int)>::empty()
        },
        OrderEntryModel::Malformed => Seq::<(Seq<char>, int)>::empty(),
    }
}

/// The orders kept, in the original list order.
pub open spec fn valid_orders(es: Seq<OrderEntryModel>) -> Seq<(Seq<char>, int)>
    decreases es.len(),
{
    if es.len() == 0 {
        Seq::<(Seq<char>, int)>::empty()
    } else {
        valid_orders(es.drop_last()) + entry_line(es.last())
    }
}

/// One printed line: `<item>: <quantity>`.
pub open spec fn line_of(v: (Seq<char>, int)) -> Seq<char> {
    v.0 + seq![':', ' '] + dec_text(v.1)
}

/// The kept orders, one line each, joined by newlines.
pub open spec fn order_lines(vs: Seq<(Seq<char>, int)>) -> Seq<char>
    decreases vs.len(),
{
    if vs.len() == 0 {
        Seq::<char>::empty()
    } else if vs.len() == 1 {
        line_of(vs[0])
    } else {
        order_lines(vs.drop_last()) + seq!['\n'] + line_of(vs.last())
    }
}

pub open spec fn orders_status(es: Seq<OrderEntryModel>) -> int {
    if valid_orders(es).len() == 0 {
        204
    } else {
        200
    }
}

pub open spec fn orders_body(es: Seq<OrderEntryModel>) -> Seq<char> {
    order_lines(valid_orders(es))
}

/// The response once the metadata has been read: no `orders` list shape at
/// all is "nothing to report" (204); otherwise the kept orders decide.
pub open spec fn metadata_reply_matches(es: Option<Seq<OrderEntryModel>>, r: Reply) -> bool {
    match es {
        None => reply_is(r, 204, Seq::<char>::empty()),
        Some(s) => reply_is(r, orders_status(s), orders_body(s)),
    }
}

/// `ks` contains the magic keyword.
pub open spec fn has_magic_keyword(ks: Seq<Seq<char>>) -> bool {
    exists|i: int| 0 <= i < ks.len() && (#[trigger] ks[i]) == "Christmas 2024"@
}

/// The keyword gate: the local keywords must contain the magic keyword.
pub open spec fn keyword_gate(kw: Option<Seq<Seq<char>>>) -> bool {
    match kw {
        Some(ks) => has_magic_keyword(ks),
        None => false,
    }
}

/// The response the route gives for a parsed manifest: no package or no
/// metadata is "nothing to report"; a failed keyword gate is a policy
/// rejection; with metadata present, the orders that metadata holds decide.
pub open spec fn manifest_reply_matches(h: ManifestModel, r: Reply) -> bool {
    match h.package {
        None => reply_is(r, 204, Seq::<char>::empty()),
        Some(p) => if !keyword_gate(p.keywords) {
            reply_is(r, 400, "Magic keyword not provided"@)
        } else {
            match p.metadata {
                None => reply_is(r, 204, Seq::<char>::empty()),
                Some(md) => metadata_reply_matches(orders_model(md), r),
            }
        },
    }
}

/// The response for a whole body in one format: a body the format's parser
/// rejects is an invalid manifest.
pub open spec fn parsed_reply(h: Option<ManifestModel>, r: Reply) -> bool {
    match h {
        None => reply_is(r, 400, "Invalid manifest"@),
        Some(head) => manifest_reply_matches(head, r),
    }
}

/// The keyword gate, executable.
pub fn check_keywords(kw: &Option<Vec<String>>) -> (r: bool)
    ensures
        r == keyword_gate(keywords_view(*kw)),
{
    let ks = match kw {
        Some(ks) => ks,
        None => {
            return false;
        },
    };
    let magic: String = "Christmas 2024".to_owned();
    let mut i: usize = 0;
    while i < ks.len()
        invariant
            i <= ks@.len(),
            magic@ == "Christmas 2024"@,
            keywords_view(*kw) == Some(ks.deep_view()),
            forall|j: int| 0 <= j < i ==> ks@[j]@ != "Christmas 2024"@,
        decreases ks@.len() - i,
    {
        if ks[i] == magic {
            proof {
                let dv = ks.deep_view();
                assert(dv[i as int] == ks@[i as int]@);
                assert(dv[i as int] == "Christmas 2024"@);
                assert(i < dv.len());
                assert(keywords_view(*kw) == Some(dv));
                assert(has_magic_keyword(dv));
            }
            return true;
        }
        i += 1;
    }
    proof {
        assert forall|j: int| 0 <= j < ks.deep_view().len() implies ks.deep_view()[j]
            != "Christmas 2024"@ by {
            assert(ks.deep_view()[j] == ks@[j]@);
        }
    }
    false
}

/// The reading of one orders entry: a table holding a string under `item`
/// and an integer under `quantity` is a candidate; any other shape is
/// malformed.
pub open spec fn entry_model(v: toml::Value) -> OrderEntryModel {
    match lookup_of(v, "item"@) {
        Some(iv) => match str_model(iv) {
            Some(item) => match lookup_of(v, "quantity"@) {
                Some(qv) => match int_model(qv) {
                    Some(q) => OrderEntryModel::Candidate { item, quantity: q as int },
                    None => OrderEntryModel::Malformed,
                },
                None => OrderEntryModel::Malformed,
            },
            None => OrderEntryModel::Malformed,
        },
        None => OrderEntryModel::Malformed,
    }
}

/// The readings of a whole element list, in order.
pub open spec fn entries_model(a: Seq<toml::Value>) -> Seq<OrderEntryModel>
    decreases a.len(),
{
    if a.len() == 0 {
        Seq::<OrderEntryModel>::empty()
    } else {
        entries_model(a.drop_last()).push(entry_model(a.last()))
    }
}

/// The orders a metadata value holds: the readings of the array under its
/// `orders` key; nothing where the metadata is not a table with one.
pub open spec fn orders_model(v: toml::Value) -> Option<Seq<OrderEntryModel>> {
    match lookup_of(v, "orders"@) {
        Some(o) => match array_model(o) {
            Some(a) => Some(entries_model(a)),
            None => None,
        },
        None => None,
    }
}

/// Reads one entry of the orders list, through the metadata accessors.
fn entry_of(v: &toml::Value) -> (r: OrderEntry)
    ensures
        r@ == entry_model(*v),
{
    let item: &str = match value_get(v, "item") {
        Some(iv) => match value_as_str(iv) {
            Some(s) => s,
            None => {
                return OrderEntry::Malformed;
            },
        },
        None => {
            return OrderEntry::Malformed;
        },
    };
    match value_get(v, "quantity") {
        Some(qv) => match value_as_integer(qv) {
            Some(q) => OrderEntry::Candidate { item: item.to_owned(), quantity: q },
            None => OrderEntry::Malformed,
        },
        None => OrderEntry::Malformed,
    }
}

/// Reads the orders list out of the metadata value: `None` where the
/// metadata is not a table with an `orders` array.
fn extract_orders(v: &toml::Value) -> (r: Option<Vec<OrderEntry>>)
    ensures
        match r {
            Some(es) => orders_model(*v) == Some(es.deep_view()),
            None => orders_model(*v) is None,
        },
{
    let list = match value_get(v, "orders") {
        Some(o) => match value_as_array(o) {
            Some(a) => a,
            None => {
                return None;
            },
        },
        None => {
            return None;
        },
    };
    let mut es: Vec<OrderEntry> = Vec::new();
    let mut i: usize = 0;
    while i < list.len()
        invariant
            i <= list@.len(),
            es.deep_view() == entries_model(list@.subrange(0, i as int)),
        decreases list@.len() - i,
    {
        es.push(entry_of(&list[i]));
        proof {
            assert(list@.subrange(0, i as int + 1).drop_last() =~= list@.subrange(0, i as int));
            assert(list@.subrange(0, i as int + 1).last() == list@[i as int]);
            assert(es.deep_view() =~= entries_model(list@.subrange(0, i as int + 1)));
        }
        i += 1;
    }
    proof {
        assert(list@.subrange(0, list@.len() as int) =~= list@);
    }
    Some(es)
}

/// The (item, quantity) views of the kept pairs, in order.
pub open spec fn vals_view(vs: Seq<(String, u32)>) -> Seq<(Seq<char>, int)>
    decreases vs.len(),
{
    if vs.len() == 0 {
        Seq::<(Seq<char>, int)>::empty()
    } else {
        vals_view(vs.drop_last()).push((vs.last().0@, vs.last().1 as int))
    }
}

pub proof fn lemma_vals_view(vs: Seq<(String, u32)>)
    ensures
        vals_view(vs).len() == vs.len(),
        forall|j: int| 0 <= j < vs.len() ==> #[trigger] vals_view(vs)[j] == (vs[j].0@, vs[j].1
            as int),
    decreases vs.len(),
{
    if vs.len() > 0 {
        lemma_vals_view(vs.drop_last());
    }
}

/// The response for a read orders list: exact for every value of it. The
/// entries that keep their shape and 32-bit range are printed one per line;
/// none surviving is "nothing to report".
pub fn metadata_reply(orders: Option<Vec<OrderEntry>>) -> (r: Reply)
    ensures
        metadata_reply_matches(
            match orders {
                Some(es) => Some(es.deep_view()),
                None => None,
            },
            r,
        ),
{
    let es = match orders {
        Some(es) => es,
        None => {
            return Reply::empty(204);
        },
    };
    let ghost dv = es.deep_view();
    let mut vals: Vec<(String, u32)> = Vec::new();
    let mut i: usize = 0;
    while i < es.len()
        invariant
            i <= es@.len(),
            dv == es.deep_view(),
            dv.len() == es@.len(),
            vals_view(vals@) == valid_orders(dv.subrange(0, i as int)),
        decreases es@.len() - i,
    {
        let ghost pre = vals@;
        match &es[i] {
            OrderEntry::Candidate { item, quantity } => {
                let q: i64 = *quantity;
                if q >= 0 && q <= 0xffff_ffffi64 {
                    vals.push((item.clone(), q as u32));
                }
            },
            OrderEntry::Malformed => {},
        }
        proof {
            assert(dv[i as int] == es@[i as int]@);
            assert(dv.subrange(0, i as int + 1).drop_last() =~= dv.subrange(0, i as int));
            assert(dv.subrange(0, i as int + 1).last() == dv[i as int]);
            if vals@.len() > pre.len() {
                assert(vals@.drop_last() =~= pre);
            }
            assert(vals_view(vals@) =~= valid_orders(dv.subrange(0, i as int + 1)));
        }
        i += 1;
    }
    proof {
        assert(dv.subrange(0, dv.len() as int) =~= dv);
    }
    let ghost vv = vals_view(vals@);
    if vals.len() == 0 {
        return Reply::empty(204);
    }
    proof {
        lemma_vals_view(vals@);
    }
    let mut body = String::new();
    let mut j: usize = 0;
    while j < vals.len()
        invariant
            j <= vals@.len(),
            vv == vals_view(vals@),
            vv == valid_orders(dv),
            vv.len() == vals@.len(),
            forall|k: int| 0 <= k < vals@.len() ==> #[trigger] vv[k] == (vals@[k].0@, vals@[k].1
                as int),
            body@ == order_lines(vv.subrange(0, j as int)),
        decreases vals@.len() - j,
    {
        if j > 0 {
            body.append("\n");
        }
        body.append(vals[j].0.as_str());
        body.append(": ");
        let mut cs: Vec<char> = Vec::new();
        push_dec(vals[j].1, &mut cs);
        let qs = chars_to_string(cs);
        body.append(qs.as_str());
        proof {
            reveal_strlit("\n");
            reveal_strlit(": ");
            assert(": "@ =~= seq![':', ' ']);
            assert("\n"@ =~= seq!['\n']);
            assert(vv.subrange(0, j as int + 1).drop_last() =~= vv.subrange(0, j as int));
            assert(vv.subrange(0, j as int + 1).last() == vv[j as int]);
            assert(body@ =~= order_lines(vv.subrange(0, j as int + 1)));
        }
        j += 1;
    }
    proof {
        assert(vv.subrange(0, vv.len() as int) =~= vv);
    }
    Reply { status: 200, location: None, body }
}

/// The whole decision chain for one parsed manifest.
pub fn read_manifest(data: &ManifestData) -> (r: Reply)
    ensures
        manifest_reply_matches(manifest_model(*data), r),
{
    let p = match &data.package {
        Some(p) => p,
        None => {
            return Reply::empty(204);
        },
    };
    if !check_keywords(&p.keywords) {
        return Reply {
            status: 400,
            location: None,
            body: "Magic keyword not provided".to_owned(),
        };
    }
    let md = match &p.metadata {
        Some(v) => v,
        None => {
            return Reply::empty(204);
        },
    };
    let entries = extract_orders(md);
    let ghost ev = match &entries {
        Some(es) => Some(es.deep_view()),
        None => None,
    };
    let r = metadata_reply(entries);
    proof {
        assert(ev == orders_model(*md));
        assert(metadata_reply_matches(orders_model(*md), r));
    }
    r
}

/// Finishes one format branch: a body the parser rejected is an invalid
/// manifest; a parsed one goes down the decision chain.
fn finish_manifest(parsed: Option<ManifestData>) -> (r: Reply)
    ensures
        parsed_reply(data_model(parsed), r),
{
    match parsed {
        None => Reply { status: 400, location: None, body: "Invalid manifest".to_owned() },
        Some(data) => read_manifest(&data),
    }
}

pub open spec fn opt_view(s: Option<&String>) -> Option<Seq<char>> {
    match s {
        Some(t) => Some(t@),
        None => None,
    }
}

/// The declared content type names one of the three formats.
pub open spec fn supported_type(ct: Option<Seq<char>>) -> bool {
    match ct {
        Some(t) => t == "application/toml"@ || t == "application/yaml"@ || t
            == "application/json"@,
        None => false,
    }
}

/// The manifest route, from the read body and the declared content type. A
/// body that could not be read at all is `None`: nothing to report. An
/// unknown or missing content type is an unsupported representation.
pub fn accept_manifest(content_type: Option<&String>, body: Option<&String>) -> (r: Reply)
    ensures
        body is None ==> reply_is(r, 204, Seq::<char>::empty()),
        body is Some && !supported_type(opt_view(content_type)) ==> reply_is(
            r,
            415,
            Seq::<char>::empty(),
        ),
        body matches Some(b) ==> content_type matches Some(ct) ==> ct@
            == "application/toml"@ ==> parsed_reply(toml_manifest_of(b@), r),
        body matches Some(b) ==> content_type matches Some(ct) ==> ct@
            == "application/yaml"@ ==> parsed_reply(yaml_manifest_of(b@), r),
        body matches Some(b) ==> content_type matches Some(ct) ==> ct@
            == "application/json"@ ==> parsed_reply(json_manifest_of(b@), r),
{
    proof {
        reveal_strlit("application/toml");
        reveal_strlit("application/yaml");
        reveal_strlit("application/json");
        assert("application/toml"@[12] != "application/yaml"@[12]);
        assert("application/toml"@[12] != "application/json"@[12]);
        assert("application/yaml"@[12] != "application/json"@[12]);
    }
    let b = match body {
        Some(b) => b,
        None => {
            return Reply::empty(204);
        },
    };
    let ct = match content_type {
        Some(c) => c,
        None => {
            return Reply::empty(415);
        },
    };
    let toml_type: String = "application/toml".to_owned();
    let yaml_type: String = "application/yaml".to_owned();
    let json_type: String = "application/json".to_owned();
    if *ct == toml_type {
        finish_manifest(parse_toml_manifest(b.as_str()))
    } else if *ct == yaml_type {
        finish_manifest(parse_yaml_manifest(b.as_str()))
    } else if *ct == json_type {
        finish_manifest(parse_json_manifest(b.as_str()))
    } else {
        Reply::empty(415)
    }
}

/// Format equivalence: the response of a supported-format branch is a
/// function of the parsed manifest model alone. Two bodies that parse to
/// the same model — whatever their wire formats — get responses with the
/// same status, the same body, and no header; in particular the keyword
/// gate's rejection does not depend on the format.
pub proof fn lemma_format_equivalence(m: Option<ManifestModel>, r1: Reply, r2: Reply)
    requires
        parsed_reply(m, r1),
        parsed_reply(m, r2),
    ensures
        r1.status == r2.status,
        r1.body@ == r2.body@,
        r1.location is None,
        r2.location is None,
{
}

} // verus!
