//! The description of a tool that an agent offers over MCP.
use vstd::prelude::*;

verus! {

/// One property of a tool's schema: its name, and its fields in order, each a field name
/// and the JSON text of the field's value (such as `"type"` and `"\"string\""`).
#[derive(Clone, Debug)]
pub struct SchemaProperty {
    pub name: String,
    pub fields: Vec<(String, String)>,
}

/// A property as plain values: its name, and its (field name, JSON text) pairs.
pub open spec fn property_view(p: SchemaProperty) -> (Seq<char>, Seq<(Seq<char>, Seq<char>)>) {
    (p.name@, p.fields@.map_values(|f: (String, String)| (f.0@, f.1@)))
}

/// The properties of a schema as plain values, in order.
pub open spec fn properties_view(o: Option<Vec<SchemaProperty>>) -> Option<Seq<(Seq<char>, Seq<(Seq<char>, Seq<char>)>)>> {
    match o {
        Some(v) => Some(v@.map_values(|p: SchemaProperty| property_view(p))),
        None => None,
    }
}

/// Whether text `a` comes before text `b`, character by character: the order of the keys
/// of a `BTreeMap<String, _>` (by the bytes of their UTF-8 form, which is the order of the
/// characters' code points).
pub open spec fn text_less(a: Seq<char>, b: Seq<char>) -> bool
    decreases a.len(),
{
    if a.len() == 0 {
        b.len() > 0
    } else if b.len() == 0 {
        false
    } else if a[0] != b[0] {
        (a[0] as u32) < (b[0] as u32)
    } else {
        text_less(a.drop_first(), b.drop_first())
    }
}

/// The order of texts is transitive.
pub proof fn lemma_text_less_transitive(a: Seq<char>, b: Seq<char>, c: Seq<char>)
    requires
        text_less(a, b),
        text_less(b, c),
    ensures
        text_less(a, c),
    decreases a.len(),
{
    if a.len() > 0 && a[0] == b[0] && b[0] == c[0] {
        lemma_text_less_transitive(a.drop_first(), b.drop_first(), c.drop_first());
    }
}

/// Whether `a` comes before `b`, character by character.
pub fn text_before(a: &str, b: &str) -> (r: bool)
    ensures
        r == text_less(a@, b@),
{
    let x = crate::text::chars_of(a);
    let y = crate::text::chars_of(b);
    let mut i: usize = 0;
    assert(x@.skip(0) =~= x@ && y@.skip(0) =~= y@);
    while i < x.len() && i < y.len()
        invariant
            x@ == a@,
            y@ == b@,
            i <= x@.len(),
            i <= y@.len(),
            text_less(a@, b@) == text_less(x@.skip(i as int), y@.skip(i as int)),
        decreases x@.len() - i,
    {
        proof {
            assert(x@.skip(i as int)[0] == x@[i as int]);
            assert(y@.skip(i as int)[0] == y@[i as int]);
            assert(x@.skip(i as int).drop_first() =~= x@.skip(i + 1));
            assert(y@.skip(i as int).drop_first() =~= y@.skip(i + 1));
        }
        if x[i] != y[i] {
            return (x[i] as u32) < (y[i] as u32);
        }
        i = i + 1;
    }
    i == x.len() && i < y.len()
}

/// Whether the properties' names are in ascending order (so each occurs once), as the
/// keys of a map are.
pub open spec fn properties_ordered(p: Option<Seq<(Seq<char>, Seq<(Seq<char>, Seq<char>)>)>>) -> bool {
    match p {
        None => true,
        Some(v) => names_ordered(v),
    }
}

/// Whether the names of a list of properties are in ascending order.
pub open spec fn names_ordered(v: Seq<(Seq<char>, Seq<(Seq<char>, Seq<char>)>)>) -> bool {
    forall|i: int, j: int| 0 <= i < j < v.len() ==> text_less(#[trigger] v[i].0, #[trigger] v[j].0)
}

/// Whether the properties' names are in ascending order, each once.
pub fn properties_in_order(p: &Option<Vec<SchemaProperty>>) -> (b: bool)
    ensures
        b == properties_ordered(properties_view(*p)),
{
    match p {
        None => true,
        Some(v) => {
            let ghost w = v@.map_values(|q: SchemaProperty| property_view(q));
            let mut i: usize = 1;
            assert(properties_view(*p) == Some(w));
            if v.len() == 0 {
                return true;
            }
            while i < v.len()
                invariant
                    1 <= i <= v@.len(),
                    properties_view(*p) == Some(w),
                    w == v@.map_values(|q: SchemaProperty| property_view(q)),
                    forall|a: int, c: int| 0 <= a < c < i ==> text_less(#[trigger] w[a].0, #[trigger] w[c].0),
                decreases v@.len() - i,
            {
                if !text_before(v[i - 1].name.as_str(), v[i].name.as_str()) {
                    proof {
                        assert(w[i - 1] == property_view(v@[i - 1]));
                        assert(w[i as int] == property_view(v@[i as int]));
                        assert(properties_view(*p) == Some(w));
                        assert(!text_less(w[i - 1].0, w[i as int].0));
                        assert(w.len() == v@.len());
                        let a: int = i - 1;
                        let c: int = i as int;
                        assert(0 <= a < c < w.len() && !text_less(w[a].0, w[c].0));
                        assert(!names_ordered(w));
                    }
                    return false;
                }
                proof {
                    assert forall|a: int, c: int| 0 <= a < c < i + 1 implies text_less(#[trigger] w[a].0, #[trigger] w[c].0) by {
                        if c == i && a < i - 1 {
                            lemma_text_less_transitive(w[a].0, w[i - 1].0, w[c].0);
                        }
                    }
                }
                i = i + 1;
            }
            assert(properties_view(*p) == Some(w));
            true
        },
    }
}

/// The schema of a tool's input or output: named properties, the required ones, and the
/// JSON type of the whole, which is always "object" when built here.
#[derive(Clone, Debug)]
pub struct ToolInputSchema {
    pub properties: Option<Vec<SchemaProperty>>,
    pub required: Vec<String>,
    type_: String,
}

/// The type of every schema built by `new`.
pub open spec fn object_type_name() -> Seq<char> {
    "object"@
}

impl ToolInputSchema {
    /// The required property names.
    pub closed spec fn spec_required(self) -> Seq<String> {
        self.required@
    }

    /// The named properties.
    pub closed spec fn spec_properties(self) -> Option<Seq<(Seq<char>, Seq<(Seq<char>, Seq<char>)>)>> {
        properties_view(self.properties)
    }

    /// The JSON type of the schema.
    pub closed spec fn spec_type(self) -> Seq<char> {
        self.type_@
    }

    /// Whether the schema is valid: its properties' names in ascending order, each once.
    pub open spec fn wf(self) -> bool {
        properties_ordered(self.spec_properties())
    }

    /// A schema of type "object".
    pub fn new(
        required: Vec<String>,
        properties: Option<Vec<SchemaProperty>>,
    ) -> (s: Self)
        requires
            properties_ordered(properties_view(properties)),
        ensures
            s.wf(),
            s.spec_required() == required@,
            s.spec_properties() == properties_view(properties),
            s.spec_type() == object_type_name(),
    {
        ToolInputSchema { properties, required, type_: String::from_str("object") }
    }

    /// A schema with the given type, as read back from its JSON form.
    pub fn from_parts(
        required: Vec<String>,
        properties: Option<Vec<SchemaProperty>>,
        type_: String,
    ) -> (s: Self)
        requires
            properties_ordered(properties_view(properties)),
        ensures
            s.wf(),
            s.spec_required() == required@,
            s.spec_properties() == properties_view(properties),
            s.spec_type() == type_@,
    {
        ToolInputSchema { properties, required, type_ }
    }

    /// The JSON type of the schema.
    pub fn type_(&self) -> (t: &String)
        ensures
            t@ == self.spec_type(),
    {
        &self.type_
    }

    /// The JSON type that `new` gives.
    pub fn default_type_name() -> (t: String)
        ensures
            t@ == object_type_name(),
    {
        String::from_str("object")
    }
}

/// The schema of a tool's output.
#[derive(Clone, Debug)]
pub struct ToolOutputSchema {
    pub properties: Option<Vec<SchemaProperty>>,
    pub required: Vec<String>,
    type_: String,
}

impl ToolOutputSchema {
    /// The required property names.
    pub closed spec fn spec_required(self) -> Seq<String> {
        self.required@
    }

    /// The named properties.
    pub closed spec fn spec_properties(self) -> Option<Seq<(Seq<char>, Seq<(Seq<char>, Seq<char>)>)>> {
        properties_view(self.properties)
    }

    /// The JSON type of the schema.
    pub closed spec fn spec_type(self) -> Seq<char> {
        self.type_@
    }

    /// Whether the schema is valid: its properties' names in ascending order, each once.
    pub open spec fn wf(self) -> bool {
        properties_ordered(self.spec_properties())
    }

    /// A schema of type "object".
    pub fn new(
        required: Vec<String>,
        properties: Option<Vec<SchemaProperty>>,
    ) -> (s: Self)
        requires
            properties_ordered(properties_view(properties)),
        ensures
            s.wf(),
            s.spec_required() == required@,
            s.spec_properties() == properties_view(properties),
            s.spec_type() == object_type_name(),
    {
        ToolOutputSchema { properties, required, type_: String::from_str("object") }
    }

    /// A schema with the given type, as read back from its JSON form.
    pub fn from_parts(
        required: Vec<String>,
        properties: Option<Vec<SchemaProperty>>,
        type_: String,
    ) -> (s: Self)
        requires
            properties_ordered(properties_view(properties)),
        ensures
            s.wf(),
            s.spec_required() == required@,
            s.spec_properties() == properties_view(properties),
            s.spec_type() == type_@,
    {
        ToolOutputSchema { properties, required, type_ }
    }

    /// The JSON type of the schema.
    pub fn type_(&self) -> (t: &String)
        ensures
            t@ == self.spec_type(),
    {
        &self.type_
    }

    /// The JSON type that `new` gives.
    pub fn default_type_name() -> (t: String)
        ensures
            t@ == object_type_name(),
    {
        String::from_str("object")
    }
}

/// Hints about how a tool behaves.
#[derive(Clone, Debug, Default)]
pub struct ToolAnnotations {
    pub destructive_hint: Option<bool>,
    pub idempotent_hint: Option<bool>,
    pub open_world_hint: Option<bool>,
    pub read_only_hint: Option<bool>,
    pub title: Option<String>,
}

/// A tool that an agent offers.
#[derive(Clone, Debug)]
pub struct Tool {
    pub annotations: Option<ToolAnnotations>,
    pub description: Option<String>,
    pub input_schema: ToolInputSchema,
    pub meta: Option<serde_json::Map<String, serde_json::Value>>,
    pub name: String,
    pub output_schema: Option<ToolOutputSchema>,
    pub title: Option<String>,
}

/// A copy of a list of strings.
pub fn copy_strings(v: &Vec<String>) -> (r: Vec<String>)
    ensures
        r@ == v@,
{
    let mut out: Vec<String> = Vec::new();
    let mut i: usize = 0;
    while i < v.len()
        invariant
            i <= v@.len(),
            out@ == v@.subrange(0, i as int),
        decreases v@.len() - i,
    {
        out.push(v[i].clone());
        i = i + 1;
        assert(out@ =~= v@.subrange(0, i as int));
    }
    assert(v@.subrange(0, v@.len() as int) =~= v@);
    out
}

/// A copy of an optional string.
pub fn copy_optional(s: &Option<String>) -> (r: Option<String>)
    ensures
        r == *s,
{
    match s {
        Some(t) => Some(t.clone()),
        None => None,
    }
}

/// A copy of a property's fields.
fn copy_fields(v: &Vec<(String, String)>) -> (r: Vec<(String, String)>)
    ensures
        r@.map_values(|f: (String, String)| (f.0@, f.1@)) == v@.map_values(|f: (String, String)| (f.0@, f.1@)),
{
    let mut out: Vec<(String, String)> = Vec::new();
    let mut i: usize = 0;
    while i < v.len()
        invariant
            i <= v@.len(),
            out@.map_values(|f: (String, String)| (f.0@, f.1@)) == v@.subrange(0, i as int).map_values(
                |f: (String, String)| (f.0@, f.1@),
            ),
        decreases v@.len() - i,
    {
        let ghost before = out@;
        let a = v[i].0.clone();
        let b = v[i].1.clone();
        out.push((a, b));
        proof {
            assert(out@.map_values(|f: (String, String)| (f.0@, f.1@)) =~= before.map_values(
                |f: (String, String)| (f.0@, f.1@),
            ).push((v@[i as int].0@, v@[i as int].1@)));
            assert(v@.subrange(0, i + 1).map_values(|f: (String, String)| (f.0@, f.1@)) =~= v@.subrange(
                0,
                i as int,
            ).map_values(|f: (String, String)| (f.0@, f.1@)).push((v@[i as int].0@, v@[i as int].1@)));
        }
        i = i + 1;
    }
    assert(v@.subrange(0, v@.len() as int) =~= v@);
    out
}

/// A copy of a schema's properties.
pub fn copy_properties(p: &Option<Vec<SchemaProperty>>) -> (r: Option<Vec<SchemaProperty>>)
    ensures
        properties_view(r) == properties_view(*p),
{
    match p {
        None => None,
        Some(v) => {
            let mut out: Vec<SchemaProperty> = Vec::new();
            let mut i: usize = 0;
            while i < v.len()
                invariant
                    i <= v@.len(),
                    out@.map_values(|q: SchemaProperty| property_view(q)) == v@.subrange(0, i as int).map_values(
                        |q: SchemaProperty| property_view(q),
                    ),
                decreases v@.len() - i,
            {
                let ghost before = out@;
                let q = SchemaProperty { name: v[i].name.clone(), fields: copy_fields(&v[i].fields) };
                assert(property_view(q) == property_view(v@[i as int]));
                out.push(q);
                proof {
                    assert(out@.map_values(|q: SchemaProperty| property_view(q)) =~= before.map_values(
                        |q: SchemaProperty| property_view(q),
                    ).push(property_view(v@[i as int])));
                    assert(v@.subrange(0, i + 1).map_values(|q: SchemaProperty| property_view(q)) =~= v@.subrange(
                        0,
                        i as int,
                    ).map_values(|q: SchemaProperty| property_view(q)).push(property_view(v@[i as int])));
                }
                i = i + 1;
            }
            assert(v@.subrange(0, v@.len() as int) =~= v@);
            Some(out)
        },
    }
}

/// `Clone::clone` of a tool's metadata. Trusted: the copy is the same value (a clone of a
/// `serde_json::Map` copies every key and value).
#[verifier::external_body]
fn copy_meta(m: &Option<serde_json::Map<String, serde_json::Value>>) -> (r: Option<serde_json::Map<String, serde_json::Value>>)
    ensures
        r == *m,
{
    m.clone()
}
impl Tool {
    /// The tool as it is listed to clients: the same name, title, description, inputs and
    /// metadata, an input schema of type "object", and neither annotations nor an output
    /// schema.
    pub fn listed(&self) -> (t: Tool)
        ensures
            t.name == self.name,
            t.title == self.title,
            t.description == self.description,
            t.input_schema.spec_required() == self.input_schema.spec_required(),
            t.input_schema.spec_properties() == self.input_schema.spec_properties(),
            t.input_schema.spec_type() == object_type_name(),
            self.input_schema.wf() ==> t.input_schema.wf(),
            t.meta == self.meta,
            t.annotations is None,
            t.output_schema is None,
    {
        let required = copy_strings(&self.input_schema.required);
        Tool {
            annotations: None,
            description: copy_optional(&self.description),
            input_schema: ToolInputSchema {
                properties: copy_properties(&self.input_schema.properties),
                required,
                type_: String::from_str("object"),
            },
            meta: copy_meta(&self.meta),
            name: self.name.clone(),
            output_schema: None,
            title: copy_optional(&self.title),
        }
    }
}

/// Who a piece of content is meant for.
#[derive(Clone, Copy, Debug, PartialEq, Eq, Structural, PartialOrd, Ord, Hash)]
pub enum Role {
    Assistant,
    User,
}

impl Role {
    /// The role's name as it is written in text.
    pub open spec fn spec_text(self) -> Seq<char> {
        match self {
            Role::Assistant => "assistant"@,
            Role::User => "user"@,
        }
    }

    /// The role's name as it is written in text.
    pub fn to_string(&self) -> (s: String)
        ensures
            s@ == self.spec_text(),
    {
        match self {
            Role::Assistant => String::from_str("assistant"),
            Role::User => String::from_str("user"),
        }
    }
}

} // verus!
