//! Detail documents, the flat system record, and the node properties that a
//! record is stored as.
use vstd::prelude::*;
use crate::json_text::{encode_opt_int, encode_opt_list, opt_int_text, opt_list_text, opt_seq};

verus! {

/// Why a unit of work, or the listing of IDs, failed.
#[derive(Clone, Copy, Debug, PartialEq, Eq, Structural)]
pub enum ErrorKind {
    /// The request could not complete, or the remote answered with a failure status.
    Transport,
    /// The response body could not be read as the expected shape.
    Decode,
    /// A query on the graph store failed.
    Store,
}

/// A point in space. Each coordinate is kept as the bit pattern of its
/// IEEE-754 double, which the library carries through unchanged.
#[derive(Clone, Copy, Debug, PartialEq, Eq, Structural)]
pub struct Position {
    pub x_bits: u64,
    pub y_bits: u64,
    pub z_bits: u64,
}

/// A planet entry of a detail document.
#[derive(Clone, Debug)]
pub struct PlanetDoc {
    pub planet_id: i64,
    pub moons: Option<Vec<i64>>,
    pub asteroid_belts: Option<Vec<i64>>,
}

/// A detail document as read from the catalog, before its required fields have
/// been checked: each field is `None` where the body did not carry it.
#[derive(Clone, Debug)]
pub struct RawDocument {
    pub system_id: Option<i64>,
    pub name: Option<String>,
    pub constellation_id: Option<i64>,
    pub security_status_bits: Option<u64>,
    pub security_class: Option<String>,
    pub star_id: Option<i64>,
    pub stargates: Option<Vec<i64>>,
    pub planets: Option<Vec<PlanetDoc>>,
    pub position: Option<Position>,
}

/// A detail document whose required fields are present.
#[derive(Clone, Debug)]
pub struct DetailDocument {
    pub system_id: i64,
    pub name: Option<String>,
    pub constellation_id: Option<i64>,
    pub security_status_bits: u64,
    pub security_class: Option<String>,
    pub star_id: Option<i64>,
    pub stargates: Option<Vec<i64>>,
    pub planets: Option<Vec<PlanetDoc>>,
    pub position: Position,
}

/// The flat record written to the store.
#[derive(Clone, Debug)]
pub struct SystemRecord {
    pub system_id: i64,
    pub name: Option<String>,
    pub constellation_id: Option<i64>,
    pub security_status_bits: u64,
    pub security_class: Option<String>,
    pub x_bits: u64,
    pub y_bits: u64,
    pub z_bits: u64,
    pub star_id: Option<i64>,
    pub planet_ids: Option<Vec<i64>>,
    pub stargate_ids: Option<Vec<i64>>,
}

/// The property values of a `System` node, as handed to the store.
#[derive(Clone, Debug)]
pub struct NodeProperties {
    pub system_id: i64,
    pub name: String,
    pub constellation_id: String,
    pub security_status_bits: u64,
    pub star_id: String,
    pub security_class: String,
    pub x_bits: u64,
    pub y_bits: u64,
    pub z_bits: u64,
    pub planets: String,
    pub stargates: String,
}

/// The values of the node properties, strings as character sequences.
pub struct NodePropertiesView {
    pub system_id: i64,
    pub name: Seq<char>,
    pub constellation_id: Seq<char>,
    pub security_status_bits: u64,
    pub star_id: Seq<char>,
    pub security_class: Seq<char>,
    pub x_bits: u64,
    pub y_bits: u64,
    pub z_bits: u64,
    pub planets: Seq<char>,
    pub stargates: Seq<char>,
}

impl View for NodeProperties {
    type V = NodePropertiesView;

    open spec fn view(&self) -> NodePropertiesView {
        NodePropertiesView {
            system_id: self.system_id,
            name: self.name@,
            constellation_id: self.constellation_id@,
            security_status_bits: self.security_status_bits,
            star_id: self.star_id@,
            security_class: self.security_class@,
            x_bits: self.x_bits,
            y_bits: self.y_bits,
            z_bits: self.z_bits,
            planets: self.planets@,
            stargates: self.stargates@,
        }
    }
}

/// The text of an optional string, empty where it is absent.
pub open spec fn text_or_empty(s: Option<String>) -> Seq<char> {
    match s {
        Some(t) => t@,
        None => Seq::empty(),
    }
}

/// The identifiers of a sequence of planet entries, in order.
pub open spec fn planet_id_seq(planets: Seq<PlanetDoc>) -> Seq<i64> {
    planets.map_values(|p: PlanetDoc| p.planet_id)
}

/// The planet identifiers of an optional planet list.
pub open spec fn planet_ids_of(planets: Option<Vec<PlanetDoc>>) -> Option<Seq<i64>> {
    match planets {
        Some(v) => Some(planet_id_seq(v@)),
        None => None,
    }
}

/// A raw document carries every required field.
pub open spec fn has_required_fields(raw: RawDocument) -> bool {
    raw.system_id is Some && raw.security_status_bits is Some && raw.position is Some
}

/// The checked document of a raw document with its required fields present.
pub open spec fn checked_document(raw: RawDocument) -> DetailDocument {
    DetailDocument {
        system_id: raw.system_id->Some_0,
        name: raw.name,
        constellation_id: raw.constellation_id,
        security_status_bits: raw.security_status_bits->Some_0,
        security_class: raw.security_class,
        star_id: raw.star_id,
        stargates: raw.stargates,
        planets: raw.planets,
        position: raw.position->Some_0,
    }
}

/// The properties that a detail document is stored as: the position flattened
/// into three coordinates, planets reduced to their identifiers, absent strings
/// as empty text, and optional integers and lists as their JSON text.
pub open spec fn document_properties(d: DetailDocument) -> NodePropertiesView {
    NodePropertiesView {
        system_id: d.system_id,
        name: text_or_empty(d.name),
        constellation_id: opt_int_text(d.constellation_id),
        security_status_bits: d.security_status_bits,
        star_id: opt_int_text(d.star_id),
        security_class: text_or_empty(d.security_class),
        x_bits: d.position.x_bits,
        y_bits: d.position.y_bits,
        z_bits: d.position.z_bits,
        planets: opt_list_text(planet_ids_of(d.planets)),
        stargates: opt_list_text(opt_seq(d.stargates)),
    }
}

/// The properties that a record is stored as.
pub open spec fn record_properties(r: SystemRecord) -> NodePropertiesView {
    NodePropertiesView {
        system_id: r.system_id,
        name: text_or_empty(r.name),
        constellation_id: opt_int_text(r.constellation_id),
        security_status_bits: r.security_status_bits,
        star_id: opt_int_text(r.star_id),
        security_class: text_or_empty(r.security_class),
        x_bits: r.x_bits,
        y_bits: r.y_bits,
        z_bits: r.z_bits,
        planets: opt_list_text(opt_seq(r.planet_ids)),
        stargates: opt_list_text(opt_seq(r.stargate_ids)),
    }
}

/// Two documents carry the same values: equal scalars, equal texts, equal
/// lists.
pub open spec fn same_document(a: DetailDocument, b: DetailDocument) -> bool {
    &&& a.system_id == b.system_id
    &&& text_or_empty(a.name) == text_or_empty(b.name)
    &&& (a.name is Some <==> b.name is Some)
    &&& a.constellation_id == b.constellation_id
    &&& a.security_status_bits == b.security_status_bits
    &&& text_or_empty(a.security_class) == text_or_empty(b.security_class)
    &&& (a.security_class is Some <==> b.security_class is Some)
    &&& a.star_id == b.star_id
    &&& opt_seq(a.stargates) == opt_seq(b.stargates)
    &&& planet_ids_of(a.planets) == planet_ids_of(b.planets)
    &&& a.position == b.position
}

/// Checks that a raw document carries its required fields (`system_id`,
/// `security_status`, `position`); a document without one of them is a
/// decode failure.
pub fn check_document(raw: RawDocument) -> (r: Result<DetailDocument, ErrorKind>)
    ensures
        r is Ok <==> has_required_fields(raw),
        r is Err ==> r == Err::<DetailDocument, ErrorKind>(ErrorKind::Decode),
        r is Ok ==> r->Ok_0 == checked_document(raw),
{
    match (raw.system_id, raw.security_status_bits, raw.position) {
        (Some(system_id), Some(security_status_bits), Some(position)) => Ok(DetailDocument {
            system_id,
            name: raw.name,
            constellation_id: raw.constellation_id,
            security_status_bits,
            security_class: raw.security_class,
            star_id: raw.star_id,
            stargates: raw.stargates,
            planets: raw.planets,
            position,
        }),
        _ => Err(ErrorKind::Decode),
    }
}

/// The identifiers of the planet entries, in order; moons and asteroid belts
/// are not kept.
pub fn planet_ids(planets: &Vec<PlanetDoc>) -> (r: Vec<i64>)
    ensures
        r@ == planet_id_seq(planets@),
{
    let mut ids: Vec<i64> = Vec::new();
    let mut i: usize = 0;
    while i < planets.len()
        invariant
            i <= planets@.len(),
            ids@ == planet_id_seq(planets@.subrange(0, i as int)),
        decreases planets@.len() - i,
    {
        ids.push(planets[i].planet_id);
        proof {
            assert(planets@.subrange(0, i + 1 as int) == planets@.subrange(0, i as int).push(
                planets@[i as int],
            ));
        }
        i = i + 1;
    }
    proof {
        assert(planets@.subrange(0, i as int) == planets@);
    }
    ids
}

/// Flattens a checked document into the record that is written to the store.
pub fn transform(doc: DetailDocument) -> (r: SystemRecord)
    ensures
        r.system_id == doc.system_id,
        r.name == doc.name,
        r.constellation_id == doc.constellation_id,
        r.security_status_bits == doc.security_status_bits,
        r.security_class == doc.security_class,
        r.x_bits == doc.position.x_bits,
        r.y_bits == doc.position.y_bits,
        r.z_bits == doc.position.z_bits,
        r.star_id == doc.star_id,
        opt_seq(r.planet_ids) == planet_ids_of(doc.planets),
        r.stargate_ids == doc.stargates,
{
    let planet_ids = match &doc.planets {
        Some(planets) => Some(planet_ids(planets)),
        None => None,
    };
    SystemRecord {
        system_id: doc.system_id,
        name: doc.name,
        constellation_id: doc.constellation_id,
        security_status_bits: doc.security_status_bits,
        security_class: doc.security_class,
        x_bits: doc.position.x_bits,
        y_bits: doc.position.y_bits,
        z_bits: doc.position.z_bits,
        star_id: doc.star_id,
        planet_ids,
        stargate_ids: doc.stargates,
    }
}

fn text_or_empty_of(s: &Option<String>) -> (r: String)
    ensures
        r@ == text_or_empty(*s),
{
    match s {
        Some(t) => t.clone(),
        None => String::new(),
    }
}

/// Encodes a record as node properties: absent name and security class become
/// empty strings; optional integers and lists become their JSON text, `null`
/// where absent.
pub fn encode(record: &SystemRecord) -> (r: NodeProperties)
    ensures
        r@ == record_properties(*record),
{
    NodeProperties {
        system_id: record.system_id,
        name: text_or_empty_of(&record.name),
        constellation_id: encode_opt_int(&record.constellation_id),
        security_status_bits: record.security_status_bits,
        star_id: encode_opt_int(&record.star_id),
        security_class: text_or_empty_of(&record.security_class),
        x_bits: record.x_bits,
        y_bits: record.y_bits,
        z_bits: record.z_bits,
        planets: encode_opt_list(&record.planet_ids),
        stargates: encode_opt_list(&record.stargate_ids),
    }
}

/// Transforms a checked document and encodes the record.
pub fn document_to_properties(doc: DetailDocument) -> (r: NodeProperties)
    ensures
        r@ == document_properties(doc),
{
    let record = transform(doc);
    encode(&record)
}

/// The work of a unit between its fetch and its write: a failed fetch keeps
/// its error, a document without its required fields is a decode failure,
/// and any other document becomes the properties of its node.
pub fn prepare_unit(fetched: Result<RawDocument, ErrorKind>) -> (r: Result<
    NodeProperties,
    ErrorKind,
>)
    ensures
        fetched is Err ==> r == Err::<NodeProperties, ErrorKind>(fetched->Err_0),
        fetched is Ok && !has_required_fields(fetched->Ok_0) ==> r == Err::<
            NodeProperties,
            ErrorKind,
        >(ErrorKind::Decode),
        fetched is Ok && has_required_fields(fetched->Ok_0) ==> r is Ok && r->Ok_0@
            == document_properties(checked_document(fetched->Ok_0)),
{
    match fetched {
        Err(e) => Err(e),
        Ok(raw) => match check_document(raw) {
            Err(e) => Err(e),
            Ok(doc) => Ok(document_to_properties(doc)),
        },
    }
}

/// Transforming and encoding is deterministic: documents that carry the same
/// values are stored as identical property values, byte for byte.
pub proof fn lemma_encoding_deterministic(a: DetailDocument, b: DetailDocument)
    requires
        same_document(a, b),
    ensures
        document_properties(a) == document_properties(b),
{
}

} // verus!
