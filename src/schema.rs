use vstd::prelude::*;

verus! {

/// Errors of a schema query.
#[derive(Clone, Copy, PartialEq, Eq, Structural, Debug)]
pub enum QueryError {
    /// No schema matched the query.
    NoMatches,
    /// More than one schema matched the query.
    MultipleMatches { len: usize },
    /// The attribute was found but is not a flag.
    AttributeNotFlag,
    /// A single value was expected but the attribute holds several.
    AttributeMultipleValues,
}

/// The sentence that describes a query error.
pub open spec fn query_error_text(e: QueryError) -> Seq<char> {
    match e {
        QueryError::NoMatches => "no schemas matched the query"@,
        QueryError::MultipleMatches { .. } => "multiple schemas matched the query"@,
        QueryError::AttributeNotFlag => "found matching attribute but was not a flag"@,
        QueryError::AttributeMultipleValues => "found matching attribute but expected single value; multiple values present"@,
    }
}

impl QueryError {
    /// The error as a sentence.
    pub fn message(&self) -> (r: String)
        ensures
            r@ == query_error_text(*self),
    {
        let s = match self {
            QueryError::NoMatches => "no schemas matched the query",
            QueryError::MultipleMatches { .. } => "multiple schemas matched the query",
            QueryError::AttributeNotFlag => "found matching attribute but was not a flag",
            QueryError::AttributeMultipleValues => "found matching attribute but expected single value; multiple values present",
        };
        s.to_owned()
    }
}

/// Errors of reading a component out of a schema.
pub enum SchemaError {
    /// The schema lacks what a component schema needs; `pointer` names the
    /// attribute at fault.
    InvalidComponentSchema { pointer: &'static str, reason: String },
}

/// One value or several.
pub enum OneOrMany<T> {
    One(T),
    Many(Vec<T>),
}

/// A custom attribute of a schema: a flag, or a key with a value.
#[derive(Clone)]
pub enum CustomAttribute {
    Flag(String),
    KeyValue { key: String, value: String },
}

/// A value under a schema's `_metadata` object. An array keeps, for each
/// element, the string it holds, or `None` where it holds something else.
#[derive(Clone)]
pub enum MetadataValue {
    Bool(bool),
    Str(String),
    Array(Vec<Option<String>>),
    Other,
}

/// A schema's `_metadata` extension.
#[derive(Clone)]
pub enum Metadata {
    Absent,
    NotObject,
    Object(Vec<(String, MetadataValue)>),
}

/// A JSON value of `serde_json`, which schemas hold as constants and
/// enumerated values; nothing here looks inside it, it is only handed back.
#[verifier::external_type_specification]
#[verifier::external_body]
pub struct ExJsonValue(serde_json::Value);

/// The JSON data types a schema can admit.
#[derive(Clone, Copy, PartialEq, Eq, Structural, Debug)]
pub enum InstanceType {
    Null,
    Boolean,
    Object,
    Array,
    Number,
    String,
    Integer,
}

/// The subschema keywords a schema can combine others with. Boolean
/// subschemas are held as their object form.
pub struct Subschemas {
    pub all_of: Option<Vec<SchemaObject>>,
    pub one_of: Option<Vec<SchemaObject>>,
}

/// The parts of a schema object that queries read.
pub struct SchemaObject {
    pub metadata: Metadata,
    pub description: Option<String>,
    pub title: Option<String>,
    pub subschemas: Option<Subschemas>,
    pub instance_type: Option<OneOrMany<InstanceType>>,
    pub const_value: Option<serde_json::Value>,
    pub enum_values: Option<Vec<serde_json::Value>>,
}

/// A definition: a boolean schema, which nothing can match, or an object.
pub enum SchemaEntry {
    Bool(bool),
    Object(SchemaObject),
}

/// A root schema: its definitions, in key order.
pub struct RootSchema {
    pub definitions: Vec<(String, SchemaEntry)>,
}

/// The value under `key` in a metadata object: the first entry with that key.
pub open spec fn lookup(m: Seq<(String, MetadataValue)>, key: Seq<char>) -> Option<MetadataValue>
    decreases m.len(),
{
    if m.len() == 0 {
        None
    } else if m[0].0@ == key {
        Some(m[0].1)
    } else {
        lookup(m.drop_first(), key)
    }
}

/// Whether the array holds the string `v`.
pub open spec fn holds_string(xs: Seq<Option<String>>, v: Seq<char>) -> bool {
    exists|i: int| 0 <= i < xs.len() && (#[trigger] xs[i]) is Some && xs[i]->0@ == v
}

/// Whether a metadata object satisfies one attribute: a flag only by `true`,
/// a key/value by an equal string or an array that holds it.
pub open spec fn attr_matches(m: Seq<(String, MetadataValue)>, a: CustomAttribute) -> bool {
    match a {
        CustomAttribute::Flag(k) => lookup(m, k@) == Some(MetadataValue::Bool(true)),
        CustomAttribute::KeyValue { key, value } => match lookup(m, key@) {
            Some(MetadataValue::Str(s)) => s@ == value@,
            Some(MetadataValue::Array(xs)) => holds_string(xs@, value@),
            _ => false,
        },
    }
}

/// Whether a schema object satisfies every attribute of a query.
pub open spec fn object_matches(o: SchemaObject, attrs: Seq<CustomAttribute>) -> bool {
    match o.metadata {
        Metadata::Absent => attrs.len() == 0,
        Metadata::NotObject => true,
        Metadata::Object(m) => forall|i: int| 0 <= i < attrs.len() ==> attr_matches(m@, #[trigger] attrs[i]),
    }
}

/// The object definitions that satisfy `attrs`, in order.
pub open spec fn matching(defs: Seq<(String, SchemaEntry)>, attrs: Seq<CustomAttribute>) -> Seq<SchemaObject>
    decreases defs.len(),
{
    if defs.len() == 0 {
        Seq::empty()
    } else {
        let rest = matching(defs.drop_last(), attrs);
        match defs.last().1 {
            SchemaEntry::Object(o) => if object_matches(o, attrs) {
                rest.push(o)
            } else {
                rest
            },
            SchemaEntry::Bool(_) => rest,
        }
    }
}

fn lookup_exec<'a>(m: &'a Vec<(String, MetadataValue)>, key: &String) -> (r: Option<&'a MetadataValue>)
    ensures
        match lookup(m@, key@) {
            None => r is None,
            Some(v) => r is Some && *r->0 == v,
        },
{
    let mut i: usize = 0;
    proof {
        assert(m@.subrange(0, m@.len() as int) =~= m@);
    }
    while i < m.len()
        invariant
            i <= m@.len(),
            lookup(m@, key@) == lookup(m@.subrange(i as int, m@.len() as int), key@),
        decreases m@.len() - i,
    {
        let ghost rest = m@.subrange(i as int, m@.len() as int);
        proof {
            assert(rest[0] == m@[i as int]);
            assert(rest.drop_first() =~= m@.subrange(i + 1, m@.len() as int));
        }
        if m[i].0 == *key {
            return Some(&m[i].1);
        }
        i = i + 1;
    }
    None
}

fn array_holds(xs: &Vec<Option<String>>, v: &String) -> (r: bool)
    ensures
        r == holds_string(xs@, v@),
{
    let mut j: usize = 0;
    while j < xs.len()
        invariant
            j <= xs@.len(),
            forall|k: int| 0 <= k < j ==> !((#[trigger] xs@[k]) is Some && xs@[k]->0@ == v@),
        decreases xs@.len() - j,
    {
        match &xs[j] {
            Some(s) => {
                if *s == *v {
                    return true;
                }
            },
            None => {},
        }
        j = j + 1;
    }
    false
}

/// Whether a metadata object satisfies one attribute.
pub fn attribute_matches(m: &Vec<(String, MetadataValue)>, a: &CustomAttribute) -> (r: bool)
    ensures
        r == attr_matches(m@, *a),
{
    match a {
        CustomAttribute::Flag(k) => match lookup_exec(m, k) {
            Some(MetadataValue::Bool(b)) => *b,
            _ => false,
        },
        CustomAttribute::KeyValue { key, value } => match lookup_exec(m, key) {
            Some(MetadataValue::Str(s)) => *s == *value,
            Some(MetadataValue::Array(xs)) => array_holds(xs, value),
            _ => false,
        },
    }
}

/// Whether a schema object satisfies every attribute of a query. Without
/// attributes every object matches; with some, an object without metadata
/// matches none.
pub fn schema_matches(o: &SchemaObject, attrs: &Vec<CustomAttribute>) -> (r: bool)
    ensures
        r == object_matches(*o, attrs@),
{
    match &o.metadata {
        Metadata::Absent => attrs.len() == 0,
        Metadata::NotObject => true,
        Metadata::Object(m) => {
            let mut i: usize = 0;
            while i < attrs.len()
                invariant
                    o.metadata == Metadata::Object(*m),
                    i <= attrs@.len(),
                    forall|k: int| 0 <= k < i ==> attr_matches(m@, #[trigger] attrs@[k]),
                decreases attrs@.len() - i,
            {
                if !attribute_matches(m, &attrs[i]) {
                    proof {
                        assert(!attr_matches(m@, attrs@[i as int]));
                    }
                    return false;
                }
                i = i + 1;
            }
            true
        },
    }
}

/// An attribute as (key, value), with no value for a flag.
pub open spec fn attr_view(a: CustomAttribute) -> (Seq<char>, Option<Seq<char>>) {
    match a {
        CustomAttribute::Flag(k) => (k@, None),
        CustomAttribute::KeyValue { key, value } => (key@, Some(value@)),
    }
}

/// Attributes as (whether there was a single one, their views).
pub open spec fn attrs_view(x: OneOrMany<CustomAttribute>) -> (bool, Seq<(Seq<char>, Option<Seq<char>>)>) {
    match x {
        OneOrMany::One(a) => (true, seq![attr_view(a)]),
        OneOrMany::Many(v) => (false, v@.map_values(|a: CustomAttribute| attr_view(a))),
    }
}

/// Whether the attribute under `key` can be read: the metadata, if any, is an
/// object, and the value under `key`, if any, is `true`, a string, or an
/// array of strings.
pub open spec fn attribute_readable(o: SchemaObject, key: Seq<char>) -> bool {
    match o.metadata {
        Metadata::Absent => true,
        Metadata::NotObject => false,
        Metadata::Object(m) => match lookup(m@, key) {
            None => true,
            Some(MetadataValue::Bool(b)) => b,
            Some(MetadataValue::Str(_)) => true,
            Some(MetadataValue::Array(xs)) => forall|i: int| 0 <= i < xs@.len() ==> (#[trigger] xs@[i]) is Some,
            Some(MetadataValue::Other) => false,
        },
    }
}

/// The attributes under `key`: none, one flag, one key/value, or one
/// key/value for each string of an array.
pub open spec fn attributes_of(o: SchemaObject, key: Seq<char>) -> Option<
    (bool, Seq<(Seq<char>, Option<Seq<char>>)>),
> {
    match o.metadata {
        Metadata::Object(m) => match lookup(m@, key) {
            Some(MetadataValue::Bool(_)) => Some((true, seq![(key, None)])),
            Some(MetadataValue::Str(s)) => Some((true, seq![(key, Some(s@))])),
            Some(MetadataValue::Array(xs)) => Some(
                (false, xs@.map_values(|x: Option<String>| (key, Some(x->0@)))),
            ),
            _ => None,
        },
        _ => None,
    }
}

/// The single attribute under `key`, or `AttributeMultipleValues` where an
/// array holds them.
pub open spec fn attribute_of(o: SchemaObject, key: Seq<char>) -> Result<
    Option<(Seq<char>, Option<Seq<char>>)>,
    QueryError,
> {
    match attributes_of(o, key) {
        None => Ok(None),
        Some((true, v)) => Ok(Some(v[0])),
        Some((false, _)) => Err(QueryError::AttributeMultipleValues),
    }
}

/// Whether `key` holds a flag; a key/value there is `AttributeNotFlag`.
pub open spec fn flag_of(o: SchemaObject, key: Seq<char>) -> Result<bool, QueryError> {
    match attribute_of(o, key) {
        Err(e) => Err(e),
        Ok(None) => Ok(false),
        Ok(Some((_, None))) => Ok(true),
        Ok(Some((_, Some(_)))) => Err(QueryError::AttributeNotFlag),
    }
}

impl SchemaObject {
    /// Whether the attribute under `key` can be read: what the attribute
    /// getters require.
    pub fn can_read_attribute(&self, key: &String) -> (r: bool)
        ensures
            r == attribute_readable(*self, key@),
    {
        match &self.metadata {
            Metadata::Absent => true,
            Metadata::NotObject => false,
            Metadata::Object(m) => match lookup_exec(m, key) {
                None => true,
                Some(MetadataValue::Bool(b)) => *b,
                Some(MetadataValue::Str(_)) => true,
                Some(MetadataValue::Array(xs)) => {
                    let mut i: usize = 0;
                    while i < xs.len()
                        invariant
                            self.metadata == Metadata::Object(*m),
                            lookup(m@, key@) == Some(MetadataValue::Array(*xs)),
                            i <= xs@.len(),
                            forall|j: int| 0 <= j < i ==> (#[trigger] xs@[j]) is Some,
                        decreases xs@.len() - i,
                    {
                        if xs[i].is_none() {
                            return false;
                        }
                        i = i + 1;
                    }
                    true
                },
                Some(MetadataValue::Other) => false,
            },
        }
    }

    /// The attributes under `key`.
    pub fn get_attributes(&self, key: &String) -> (r: Option<OneOrMany<CustomAttribute>>)
        requires
            attribute_readable(*self, key@),
        ensures
            match r {
                None => attributes_of(*self, key@) is None,
                Some(x) => attributes_of(*self, key@) == Some(attrs_view(x)),
            },
    {
        match &self.metadata {
            Metadata::Object(m) => match lookup_exec(m, key) {
                Some(MetadataValue::Bool(_)) => Some(OneOrMany::One(CustomAttribute::Flag(key.clone()))),
                Some(MetadataValue::Str(s)) => Some(
                    OneOrMany::One(CustomAttribute::KeyValue { key: key.clone(), value: s.clone() }),
                ),
                Some(MetadataValue::Array(xs)) => {
                    let mut out: Vec<CustomAttribute> = Vec::new();
                    let mut i: usize = 0;
                    while i < xs.len()
                        invariant
                            i <= xs@.len(),
                            forall|j: int| 0 <= j < xs@.len() ==> (#[trigger] xs@[j]) is Some,
                            out@.map_values(|a: CustomAttribute| attr_view(a)) == xs@.subrange(
                                0,
                                i as int,
                            ).map_values(|x: Option<String>| (key@, Some(x->0@))),
                        decreases xs@.len() - i,
                    {
                        let ghost before = out@;
                        match &xs[i] {
                            Some(v) => {
                                let a = CustomAttribute::KeyValue { key: key.clone(), value: v.clone() };
                                assert(attr_view(a) == (key@, Some(xs@[i as int]->0@)));
                                out.push(a);
                                assert(out@ == before.push(a));
                                assert(out@.map_values(|a: CustomAttribute| attr_view(a)) =~= before.map_values(
                                    |a: CustomAttribute| attr_view(a),
                                ).push(attr_view(a)));
                                assert(xs@.subrange(0, i + 1).map_values(
                                    |x: Option<String>| (key@, Some(x->0@)),
                                ) =~= xs@.subrange(0, i as int).map_values(
                                    |x: Option<String>| (key@, Some(x->0@)),
                                ).push((key@, Some(xs@[i as int]->0@))));
                            },
                            None => {
                                assert(false);
                            },
                        }
                        i = i + 1;
                        proof {
                            assert(out@.map_values(|a: CustomAttribute| attr_view(a)) =~= xs@.subrange(
                                0,
                                i as int,
                            ).map_values(|x: Option<String>| (key@, Some(x->0@))));
                        }
                    }
                    proof {
                        assert(xs@.subrange(0, i as int) =~= xs@);
                    }
                    Some(OneOrMany::Many(out))
                },
                _ => None,
            },
            _ => None,
        }
    }

    /// The single attribute under `key`.
    pub fn get_attribute(&self, key: &String) -> (r: Result<Option<CustomAttribute>, QueryError>)
        requires
            attribute_readable(*self, key@),
        ensures
            match r {
                Ok(None) => attribute_of(*self, key@) == Ok::<
                    Option<(Seq<char>, Option<Seq<char>>)>,
                    QueryError,
                >(None),
                Ok(Some(a)) => attribute_of(*self, key@) == Ok::<
                    Option<(Seq<char>, Option<Seq<char>>)>,
                    QueryError,
                >(Some(attr_view(a))),
                Err(e) => attribute_of(*self, key@) == Err::<
                    Option<(Seq<char>, Option<Seq<char>>)>,
                    QueryError,
                >(e),
            },
    {
        match self.get_attributes(key) {
            None => Ok(None),
            Some(OneOrMany::One(a)) => Ok(Some(a)),
            Some(OneOrMany::Many(_)) => Err(QueryError::AttributeMultipleValues),
        }
    }

    /// Whether `key` holds a flag.
    pub fn has_flag_attribute(&self, key: &String) -> (r: Result<bool, QueryError>)
        requires
            attribute_readable(*self, key@),
        ensures
            r == flag_of(*self, key@),
    {
        match self.get_attribute(key) {
            Err(e) => Err(e),
            Ok(None) => Ok(false),
            Ok(Some(CustomAttribute::Flag(_))) => Ok(true),
            Ok(Some(CustomAttribute::KeyValue { .. })) => Err(QueryError::AttributeNotFlag),
        }
    }
}

/// A schema object found by a query.
pub struct SimpleSchema<'a> {
    schema: &'a SchemaObject,
}

impl<'a> SimpleSchema<'a> {
    pub closed spec fn object(&self) -> SchemaObject {
        *self.schema
    }

    pub fn from_object(schema: &'a SchemaObject) -> (r: Self)
        ensures
            r.object() == *schema,
    {
        SimpleSchema { schema }
    }

    /// The schema object itself.
    pub fn schema(&self) -> (r: &'a SchemaObject)
        ensures
            *r == self.object(),
    {
        self.schema
    }
}

/// Holds a root schema and answers queries on it.
pub struct SchemaQuerier {
    schema: RootSchema,
}

impl SchemaQuerier {
    pub closed spec fn root(&self) -> RootSchema {
        self.schema
    }

    pub fn new(schema: RootSchema) -> (r: Self)
        ensures
            r.root() == schema,
    {
        SchemaQuerier { schema }
    }

    /// A query with no constraint yet.
    pub fn query(&self) -> (r: SchemaQueryBuilder<'_>)
        ensures
            r.root() == self.root(),
            r.attributes() == Seq::<CustomAttribute>::empty(),
    {
        SchemaQueryBuilder { schema: &self.schema, attributes: Vec::new() }
    }
}

/// A query on a root schema; all its constraints must hold.
pub struct SchemaQueryBuilder<'a> {
    schema: &'a RootSchema,
    attributes: Vec<CustomAttribute>,
}

impl<'a> SchemaQueryBuilder<'a> {
    pub closed spec fn root(&self) -> RootSchema {
        *self.schema
    }

    pub closed spec fn attributes(&self) -> Seq<CustomAttribute> {
        self.attributes@
    }

    /// Adds a constraint: a matching schema holds `custom_attribute`. A flag
    /// matches only a flag set to `true`; a key/value matches an equal string,
    /// or an array that holds it.
    pub fn with_custom_attribute(self, custom_attribute: CustomAttribute) -> (r: Self)
        ensures
            r.root() == self.root(),
            r.attributes() == self.attributes().push(custom_attribute),
    {
        let mut b = self;
        b.attributes.push(custom_attribute);
        b
    }

    /// Every object definition that satisfies the query, in order. Boolean
    /// schemas never match.
    pub fn run(self) -> (r: Vec<SimpleSchema<'a>>)
        ensures
            r@.map_values(|x: SimpleSchema<'a>| x.object()) == matching(
                self.root().definitions@,
                self.attributes(),
            ),
    {
        let defs: &'a Vec<(String, SchemaEntry)> = &self.schema.definitions;
        let mut matches: Vec<SimpleSchema<'a>> = Vec::new();
        let mut i: usize = 0;
        while i < defs.len()
            invariant
                i <= defs@.len(),
                *defs == self.root().definitions,
                matches@.map_values(|x: SimpleSchema<'a>| x.object()) == matching(
                    defs@.subrange(0, i as int),
                    self.attributes(),
                ),
            decreases defs@.len() - i,
        {
            let ghost before = matches@;
            proof {
                assert(defs@.subrange(0, i + 1).drop_last() =~= defs@.subrange(0, i as int));
                assert(defs@.subrange(0, i + 1).last() == defs@[i as int]);
            }
            match &defs[i].1 {
                SchemaEntry::Object(o) => {
                    if schema_matches(o, &self.attributes) {
                        let m = SimpleSchema { schema: o };
                        matches.push(m);
                        proof {
                            assert(matches@.map_values(|x: SimpleSchema<'a>| x.object()) =~= before.map_values(
                                |x: SimpleSchema<'a>| x.object(),
                            ).push(*o));
                        }
                    }
                },
                SchemaEntry::Bool(_) => {},
            }
            i = i + 1;
        }
        proof {
            assert(defs@.subrange(0, i as int) =~= defs@);
        }
        matches
    }

    /// The one definition that satisfies the query.
    pub fn run_single(self) -> (r: Result<SimpleSchema<'a>, QueryError>)
        ensures
            ({
                let found = matching(self.root().definitions@, self.attributes());
                if found.len() == 0 {
                    r == Err::<SimpleSchema<'a>, QueryError>(QueryError::NoMatches)
                } else if found.len() == 1 {
                    r is Ok && r->Ok_0.object() == found[0]
                } else {
                    r == Err::<SimpleSchema<'a>, QueryError>(
                        QueryError::MultipleMatches { len: found.len() as usize },
                    )
                }
            }),
    {
        let mut matches = self.run();
        let len = matches.len();
        proof {
            assert(matches@.map_values(|x: SimpleSchema<'a>| x.object()).len() == len);
        }
        if len == 0 {
            Err(QueryError::NoMatches)
        } else if len == 1 {
            let m = matches.remove(0);
            proof {
                assert(matches@.len() == 0);
            }
            Ok(m)
        } else {
            Err(QueryError::MultipleMatches { len })
        }
    }
}

/// The kind of a component.
#[derive(Clone, Copy, PartialEq, Eq, Structural, Debug)]
pub enum ComponentType {
    Source,
    Transform,
    Sink,
}

pub open spec fn component_kind_named(s: Seq<char>) -> Option<ComponentType> {
    if s == "source"@ {
        Some(ComponentType::Source)
    } else if s == "transform"@ {
        Some(ComponentType::Transform)
    } else if s == "sink"@ {
        Some(ComponentType::Sink)
    } else {
        None
    }
}

impl ComponentType {
    /// The component type that `name` spells, if any.
    pub fn from_name(name: &String) -> (r: Option<ComponentType>)
        ensures
            r == component_kind_named(name@),
    {
        if *name == "source".to_owned() {
            Some(ComponentType::Source)
        } else if *name == "transform".to_owned() {
            Some(ComponentType::Transform)
        } else if *name == "sink".to_owned() {
            Some(ComponentType::Sink)
        } else {
            None
        }
    }
}

/// The attribute that names a component's type.
pub const COMPONENT_TYPE_KEY: &'static str = "docs::component_type";

/// The attribute that names a component.
pub const COMPONENT_NAME_KEY: &'static str = "docs::component_name";

/// The value of a key/value attribute that a component schema needs, or why
/// it cannot be had.
pub open spec fn required_value(o: SchemaObject, key: Seq<char>) -> Result<Seq<char>, Seq<char>> {
    match attribute_of(o, key) {
        Err(e) => Err(query_error_text(e)),
        Ok(None) => Err("attribute must be present"@),
        Ok(Some((_, None))) => Err("expected key/value attribute"@),
        Ok(Some((_, Some(v)))) => Ok(v),
    }
}

/// A component read from a schema, as (type, name), or the error as
/// (pointer, reason).
pub open spec fn component_of(o: SchemaObject) -> Result<(ComponentType, Seq<char>), (Seq<char>, Seq<char>)> {
    match required_value(o, COMPONENT_TYPE_KEY@) {
        Err(reason) => Err((COMPONENT_TYPE_KEY@, reason)),
        Ok(t) => match component_kind_named(t) {
            None => Err((COMPONENT_TYPE_KEY@, "value was not a valid component type"@)),
            Some(ct) => match required_value(o, COMPONENT_NAME_KEY@) {
                Err(reason) => Err((COMPONENT_NAME_KEY@, reason)),
                Ok(name) => Ok((ct, name)),
            },
        },
    }
}

pub open spec fn schema_error_view(e: SchemaError) -> (Seq<char>, Seq<char>) {
    match e {
        SchemaError::InvalidComponentSchema { pointer, reason } => (pointer@, reason@),
    }
}

fn read_required(s: &SimpleSchema, key: &'static str) -> (r: Result<String, SchemaError>)
    requires
        attribute_readable(s.object(), key@),
    ensures
        match required_value(s.object(), key@) {
            Ok(v) => r is Ok && r->Ok_0@ == v,
            Err(reason) => r is Err && schema_error_view(r->Err_0) == (key@, reason),
        },
{
    let k = key.to_owned();
    match s.get_attribute(&k) {
        Err(e) => Err(SchemaError::InvalidComponentSchema { pointer: key, reason: e.message() }),
        Ok(None) => Err(
            SchemaError::InvalidComponentSchema {
                pointer: key,
                reason: "attribute must be present".to_owned(),
            },
        ),
        Ok(Some(CustomAttribute::Flag(_))) => Err(
            SchemaError::InvalidComponentSchema {
                pointer: key,
                reason: "expected key/value attribute".to_owned(),
            },
        ),
        Ok(Some(CustomAttribute::KeyValue { value, .. })) => Ok(value),
    }
}

/// A schema that describes a component: a schema with a component type and a
/// component name.
pub struct ComponentSchema<'a> {
    schema: &'a SchemaObject,
    component_name: String,
    component_type: ComponentType,
}

impl<'a> ComponentSchema<'a> {
    pub closed spec fn object(&self) -> SchemaObject {
        *self.schema
    }

    pub closed spec fn name_view(&self) -> Seq<char> {
        self.component_name@
    }

    pub closed spec fn type_view(&self) -> ComponentType {
        self.component_type
    }

    pub fn component_type(&self) -> (r: ComponentType)
        ensures
            r == self.type_view(),
    {
        self.component_type
    }

    pub fn component_name(&self) -> (r: &str)
        ensures
            r@ == self.name_view(),
    {
        self.component_name.as_str()
    }

    /// Reads a component out of a schema: its `docs::component_type` must be a
    /// key/value naming a component type, and its `docs::component_name` a
    /// key/value; otherwise the error names the attribute at fault and why.
    pub fn try_from(value: SimpleSchema<'a>) -> (r: Result<Self, SchemaError>)
        requires
            attribute_readable(value.object(), COMPONENT_TYPE_KEY@),
            attribute_readable(value.object(), COMPONENT_NAME_KEY@),
        ensures
            match component_of(value.object()) {
                Ok((ct, name)) => r is Ok && r->Ok_0.object() == value.object() && r->Ok_0.type_view()
                    == ct && r->Ok_0.name_view() == name,
                Err(err) => r is Err && schema_error_view(r->Err_0) == err,
            },
    {
        let kind_name = match read_required(&value, COMPONENT_TYPE_KEY) {
            Ok(v) => v,
            Err(e) => {
                return Err(e);
            },
        };
        let component_type = match ComponentType::from_name(&kind_name) {
            Some(ct) => ct,
            None => {
                return Err(
                    SchemaError::InvalidComponentSchema {
                        pointer: COMPONENT_TYPE_KEY,
                        reason: "value was not a valid component type".to_owned(),
                    },
                );
            },
        };
        let component_name = match read_required(&value, COMPONENT_NAME_KEY) {
            Ok(v) => v,
            Err(e) => {
                return Err(e);
            },
        };
        Ok(ComponentSchema { schema: value.schema, component_name, component_type })
    }
}

/// What kind of schema an object is.
pub enum SchemaType<'a> {
    /// Valid where every subschema is (`allOf`).
    AllOf(Vec<SimpleSchema<'a>>),
    /// Valid where exactly one subschema is (`oneOf`).
    OneOf(Vec<SimpleSchema<'a>>),
    /// Valid for one constant value (`const`).
    Constant(&'a serde_json::Value),
    /// Valid for one of several values (`enum`).
    Enum(&'a Vec<serde_json::Value>),
    /// Valid for the given data types (`type`).
    Typed(OneOrMany<InstanceType>),
}

/// Which kind a schema object is, by the first of these that it has:
/// subschemas, instance types, a constant, enumerated values.
pub enum TypeKind {
    AllOf,
    OneOf,
    Typed,
    Constant,
    Enum,
}

/// Whether the kind of a schema can be told: subschemas, if present, are
/// `allOf` or `oneOf`, and at least one of the four keywords is present.
pub open spec fn type_detectable(o: SchemaObject) -> bool {
    match o.subschemas {
        Some(sub) => sub.all_of is Some || sub.one_of is Some,
        None => o.instance_type is Some || o.const_value is Some || o.enum_values is Some,
    }
}

pub open spec fn type_kind(o: SchemaObject) -> TypeKind {
    match o.subschemas {
        Some(sub) => if sub.all_of is Some {
            TypeKind::AllOf
        } else {
            TypeKind::OneOf
        },
        None => if o.instance_type is Some {
            TypeKind::Typed
        } else if o.const_value is Some {
            TypeKind::Constant
        } else {
            TypeKind::Enum
        },
    }
}

pub open spec fn instance_types_view(x: OneOrMany<InstanceType>) -> (bool, Seq<InstanceType>) {
    match x {
        OneOrMany::One(t) => (true, seq![t]),
        OneOrMany::Many(v) => (false, v@),
    }
}

fn simple_schemas<'a>(objs: &'a Vec<SchemaObject>) -> (r: Vec<SimpleSchema<'a>>)
    ensures
        r@.map_values(|x: SimpleSchema<'a>| x.object()) == objs@,
{
    let mut out: Vec<SimpleSchema<'a>> = Vec::new();
    let mut i: usize = 0;
    while i < objs.len()
        invariant
            i <= objs@.len(),
            out@.map_values(|x: SimpleSchema<'a>| x.object()) == objs@.subrange(0, i as int),
        decreases objs@.len() - i,
    {
        let ghost before = out@;
        out.push(SimpleSchema { schema: &objs[i] });
        i = i + 1;
        proof {
            assert(out@.map_values(|x: SimpleSchema<'a>| x.object()) =~= before.map_values(
                |x: SimpleSchema<'a>| x.object(),
            ).push(objs@[i - 1]));
            assert(objs@.subrange(0, i as int) =~= objs@.subrange(0, i - 1).push(objs@[i - 1]));
        }
    }
    proof {
        assert(objs@.subrange(0, i as int) =~= objs@);
    }
    out
}

fn copy_types(x: &OneOrMany<InstanceType>) -> (r: OneOrMany<InstanceType>)
    ensures
        instance_types_view(r) == instance_types_view(*x),
{
    match x {
        OneOrMany::One(t) => OneOrMany::One(*t),
        OneOrMany::Many(v) => {
            let mut out: Vec<InstanceType> = Vec::new();
            let mut i: usize = 0;
            while i < v.len()
                invariant
                    i <= v@.len(),
                    out@ == v@.subrange(0, i as int),
                decreases v@.len() - i,
            {
                out.push(v[i]);
                i = i + 1;
                proof {
                    assert(out@ =~= v@.subrange(0, i as int));
                }
            }
            proof {
                assert(v@.subrange(0, i as int) =~= v@);
            }
            OneOrMany::Many(out)
        },
    }
}

impl SchemaObject {
    /// The kind of this schema, with what it holds for that kind.
    pub fn schema_type<'a>(&'a self) -> (r: SchemaType<'a>)
        requires
            type_detectable(*self),
        ensures
            match (type_kind(*self), r) {
                (TypeKind::AllOf, SchemaType::AllOf(v)) => v@.map_values(|x: SimpleSchema<'a>| x.object())
                    == self.subschemas->0.all_of->0@,
                (TypeKind::OneOf, SchemaType::OneOf(v)) => v@.map_values(|x: SimpleSchema<'a>| x.object())
                    == self.subschemas->0.one_of->0@,
                (TypeKind::Typed, SchemaType::Typed(t)) => instance_types_view(t) == instance_types_view(
                    self.instance_type->0,
                ),
                (TypeKind::Constant, SchemaType::Constant(c)) => *c == self.const_value->0,
                (TypeKind::Enum, SchemaType::Enum(e)) => *e == self.enum_values->0,
                _ => false,
            },
    {
        match &self.subschemas {
            Some(sub) => match &sub.all_of {
                Some(all_of) => SchemaType::AllOf(simple_schemas(all_of)),
                None => match &sub.one_of {
                    Some(one_of) => SchemaType::OneOf(simple_schemas(one_of)),
                    None => {
                        assert(false);
                        SchemaType::Typed(OneOrMany::Many(Vec::new()))
                    },
                },
            },
            None => match &self.instance_type {
                Some(t) => SchemaType::Typed(copy_types(t)),
                None => match &self.const_value {
                    Some(c) => SchemaType::Constant(c),
                    None => match &self.enum_values {
                        Some(e) => SchemaType::Enum(e),
                        None => {
                            assert(false);
                            SchemaType::Typed(OneOrMany::Many(Vec::new()))
                        },
                    },
                },
            },
        }
    }

    /// The schema's description, if it has one.
    pub fn description(&self) -> (r: Option<&str>)
        ensures
            r is Some == self.description is Some,
            r is Some ==> r->0@ == self.description->0@,
    {
        match &self.description {
            Some(d) => Some(d.as_str()),
            None => None,
        }
    }

    /// The schema's title, if it has one.
    pub fn title(&self) -> (r: Option<&str>)
        ensures
            r is Some == self.title is Some,
            r is Some ==> r->0@ == self.title->0@,
    {
        match &self.title {
            Some(t) => Some(t.as_str()),
            None => None,
        }
    }
}

/// What every kind of found schema answers.
pub trait QueryableSchema {
    /// The schema object that the answers come from.
    spec fn queried(&self) -> SchemaObject;

    /// The kind of the schema.
    fn schema_type(&self) -> (r: SchemaType<'_>)
        requires
            type_detectable(self.queried()),
        ensures
            match (type_kind(self.queried()), r) {
                (TypeKind::AllOf, SchemaType::AllOf(v)) => v@.map_values(|x: SimpleSchema| x.object())
                    == self.queried().subschemas->0.all_of->0@,
                (TypeKind::OneOf, SchemaType::OneOf(v)) => v@.map_values(|x: SimpleSchema| x.object())
                    == self.queried().subschemas->0.one_of->0@,
                (TypeKind::Typed, SchemaType::Typed(t)) => instance_types_view(t) == instance_types_view(
                    self.queried().instance_type->0,
                ),
                (TypeKind::Constant, SchemaType::Constant(c)) => *c == self.queried().const_value->0,
                (TypeKind::Enum, SchemaType::Enum(e)) => *e == self.queried().enum_values->0,
                _ => false,
            },
    ;

    /// The schema's description, if it has one.
    fn description(&self) -> (r: Option<&str>)
        ensures
            r is Some == self.queried().description is Some,
            r is Some ==> r->0@ == self.queried().description->0@,
    ;

    /// The schema's title, if it has one.
    fn title(&self) -> (r: Option<&str>)
        ensures
            r is Some == self.queried().title is Some,
            r is Some ==> r->0@ == self.queried().title->0@,
    ;

    /// The attributes under `key`.
    fn get_attributes(&self, key: &String) -> (r: Option<OneOrMany<CustomAttribute>>)
        requires
            attribute_readable(self.queried(), key@),
        ensures
            match r {
                None => attributes_of(self.queried(), key@) is None,
                Some(x) => attributes_of(self.queried(), key@) == Some(attrs_view(x)),
            },
    ;

    /// The single attribute under `key`.
    fn get_attribute(&self, key: &String) -> (r: Result<Option<CustomAttribute>, QueryError>)
        requires
            attribute_readable(self.queried(), key@),
        ensures
            match r {
                Ok(None) => attribute_of(self.queried(), key@) == Ok::<
                    Option<(Seq<char>, Option<Seq<char>>)>,
                    QueryError,
                >(None),
                Ok(Some(a)) => attribute_of(self.queried(), key@) == Ok::<
                    Option<(Seq<char>, Option<Seq<char>>)>,
                    QueryError,
                >(Some(attr_view(a))),
                Err(e) => attribute_of(self.queried(), key@) == Err::<
                    Option<(Seq<char>, Option<Seq<char>>)>,
                    QueryError,
                >(e),
            },
    ;

    /// Whether `key` holds a flag.
    fn has_flag_attribute(&self, key: &String) -> (r: Result<bool, QueryError>)
        requires
            attribute_readable(self.queried(), key@),
        ensures
            r == flag_of(self.queried(), key@),
    ;
}

impl<'a> QueryableSchema for SimpleSchema<'a> {
    open spec fn queried(&self) -> SchemaObject {
        self.object()
    }

    fn schema_type(&self) -> (r: SchemaType<'_>) {
        self.schema.schema_type()
    }

    fn description(&self) -> (r: Option<&str>) {
        self.schema.description()
    }

    fn title(&self) -> (r: Option<&str>) {
        self.schema.title()
    }

    fn get_attributes(&self, key: &String) -> (r: Option<OneOrMany<CustomAttribute>>) {
        self.schema.get_attributes(key)
    }

    fn get_attribute(&self, key: &String) -> (r: Result<Option<CustomAttribute>, QueryError>) {
        self.schema.get_attribute(key)
    }

    fn has_flag_attribute(&self, key: &String) -> (r: Result<bool, QueryError>) {
        self.schema.has_flag_attribute(key)
    }
}

impl<'a> QueryableSchema for ComponentSchema<'a> {
    open spec fn queried(&self) -> SchemaObject {
        self.object()
    }

    fn schema_type(&self) -> (r: SchemaType<'_>) {
        self.schema.schema_type()
    }

    fn description(&self) -> (r: Option<&str>) {
        self.schema.description()
    }

    fn title(&self) -> (r: Option<&str>) {
        self.schema.title()
    }

    fn get_attributes(&self, key: &String) -> (r: Option<OneOrMany<CustomAttribute>>) {
        self.schema.get_attributes(key)
    }

    fn get_attribute(&self, key: &String) -> (r: Result<Option<CustomAttribute>, QueryError>) {
        self.schema.get_attribute(key)
    }

    fn has_flag_attribute(&self, key: &String) -> (r: Result<bool, QueryError>) {
        self.schema.has_flag_attribute(key)
    }
}

} // verus!
