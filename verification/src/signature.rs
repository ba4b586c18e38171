//! Signatures: the declared input and output fields of a task.
use vstd::prelude::*;
use crate::example::Example;
use crate::text::{join, concat3, join_strings, views, trim, trim_str, str_eq};

verus! {

/// Metadata about a single input or output field of a signature.
#[derive(Debug, Clone, Copy)]
pub struct FieldDescriptor {
    pub name: &'static str,
    pub desc: &'static str,
    pub prefix: &'static str,
    pub field_type: &'static str,
}

/// The description a field is shown with: its description, or its name where
/// the description is empty.
pub open spec fn display_desc_of(f: FieldDescriptor) -> Seq<char> {
    if f.desc@.len() == 0 {
        f.name@
    } else {
        f.desc@
    }
}

/// `[[ ## name ## ]]`, the header that marks a field in the chat format.
pub open spec fn header_of(name: Seq<char>) -> Seq<char> {
    "[[ ## "@ + name + " ## ]]"@
}

/// The names of a sequence of fields.
pub open spec fn field_names(fs: Seq<FieldDescriptor>) -> Seq<Seq<char>> {
    fs.map_values(|f: FieldDescriptor| f.name@)
}

/// The names, each between backticks.
pub open spec fn backticked(names: Seq<Seq<char>>) -> Seq<Seq<char>> {
    names.map_values(|n: Seq<char>| "`"@ + n + "`"@)
}

/// The instruction made from the field names where a signature has none:
/// "Given the fields `in1`, `in2`, produce the fields `out1`."
pub open spec fn default_instruction_of(inputs: Seq<FieldDescriptor>, outputs: Seq<FieldDescriptor>) -> Seq<char> {
    "Given the fields "@ + join(backticked(field_names(inputs)), ", "@) + ", produce the fields "@
        + join(backticked(field_names(outputs)), ", "@) + "."@
}

/// The instruction in force: the declared one, or the default one where the
/// declared one is empty.
pub open spec fn effective_instruction_of(doc: Seq<char>, inputs: Seq<FieldDescriptor>, outputs: Seq<FieldDescriptor>) -> Seq<char> {
    if doc.len() == 0 {
        default_instruction_of(inputs, outputs)
    } else {
        doc
    }
}

impl FieldDescriptor {
    /// The description this field is shown with.
    pub fn display_desc(&self) -> (r: &str)
        ensures
            r@ == display_desc_of(*self),
    {
        if self.desc.is_empty() {
            self.name
        } else {
            self.desc
        }
    }

    /// The header that marks this field in the chat format.
    pub fn header(&self) -> (r: String)
        ensures
            r@ == header_of(self.name@),
    {
        header_string(self.name)
    }
}

/// The header `[[ ## name ## ]]`.
pub fn header_string(name: &str) -> (r: String)
    ensures
        r@ == header_of(name@),
{
    concat3("[[ ## ", name, " ## ]]")
}

/// The names of the fields, each between backticks.
pub fn backticked_names(fields: &[FieldDescriptor]) -> (r: Vec<String>)
    ensures
        views(r@) == backticked(field_names(fields@)),
{
    let mut r: Vec<String> = Vec::new();
    let mut i: usize = 0;
    while i < fields.len()
        invariant
            i <= fields@.len(),
            views(r@) == backticked(field_names(fields@)).take(i as int),
        decreases fields@.len() - i,
    {
        let s = concat3("`", fields[i].name, "`");
        proof {
            crate::example::lemma_views_push(r@, s);
            assert(backticked(field_names(fields@)).take(i + 1) =~= backticked(field_names(fields@)).take(i as int).push(s@));
        }
        r.push(s);
        i = i + 1;
    }
    assert(backticked(field_names(fields@)).take(i as int) =~= backticked(field_names(fields@)));
    r
}

/// The default instruction made from the field names.
pub fn default_instruction_for(inputs: &[FieldDescriptor], outputs: &[FieldDescriptor]) -> (r: String)
    ensures
        r@ == default_instruction_of(inputs@, outputs@),
{
    let ins = join_strings(&backticked_names(inputs), ", ");
    let outs = join_strings(&backticked_names(outputs), ", ");
    let mut r = String::new();
    r.append("Given the fields ");
    r.append(ins.as_str());
    r.append(", produce the fields ");
    r.append(outs.as_str());
    r.append(".");
    r
}

/// The instruction in force for a declared instruction and the fields.
pub fn effective_instruction_for(doc: &str, inputs: &[FieldDescriptor], outputs: &[FieldDescriptor]) -> (r: String)
    ensures
        r@ == effective_instruction_of(doc@, inputs@, outputs@),
{
    if doc.is_empty() {
        default_instruction_for(inputs, outputs)
    } else {
        doc.to_owned()
    }
}

/// The instruction a signature's doc comment gives: its lines, each
/// trimmed, joined with single spaces (empty without doc lines).
pub open spec fn doc_instruction_of(lines: Seq<Seq<char>>) -> Seq<char> {
    join(lines.map_values(|l: Seq<char>| trim(l)), " "@)
}

/// The instruction a signature's doc comment gives (see `doc_instruction_of`).
pub fn doc_instruction(lines: &Vec<String>) -> (r: String)
    ensures
        r@ == doc_instruction_of(views(lines@)),
{
    let ghost want = views(lines@).map_values(|l: Seq<char>| trim(l));
    let mut trimmed: Vec<String> = Vec::new();
    let mut i: usize = 0;
    while i < lines.len()
        invariant
            i <= lines@.len(),
            want == views(lines@).map_values(|l: Seq<char>| trim(l)),
            views(trimmed@) == want.take(i as int),
        decreases lines@.len() - i,
    {
        let t = trim_str(lines[i].as_str());
        proof {
            crate::example::lemma_views_push(trimmed@, t);
        }
        trimmed.push(t);
        assert(want.take(i + 1) =~= want.take(i as int).push(t@));
        i = i + 1;
    }
    assert(want.take(i as int) =~= want);
    join_strings(&trimmed, " ")
}

/// Whether a signature field is an input or an output.
#[derive(Debug, Clone, Copy, PartialEq, Eq, Structural)]
pub enum FieldKind {
    Input,
    Output,
}

/// The error of a field with neither attribute.
pub open spec fn unmarked_field_text(name: Seq<char>) -> Seq<char> {
    "Field `"@ + name + "` must have either #[input(...)] or #[output(...)] attribute"@
}

/// The kind of a signature field from its attributes: an `input` attribute
/// makes it an input (also beside an `output` one), an `output` attribute
/// an output; a field with neither is refused.
pub fn field_kind(name: &str, has_input: bool, has_output: bool) -> (r: Result<FieldKind, String>)
    ensures
        has_input ==> r == Ok::<FieldKind, String>(FieldKind::Input),
        !has_input && has_output ==> r == Ok::<FieldKind, String>(FieldKind::Output),
        !has_input && !has_output ==> (r matches Err(e) && e@ == unmarked_field_text(name@)),
{
    if has_input {
        Ok(FieldKind::Input)
    } else if has_output {
        Ok(FieldKind::Output)
    } else {
        Err(concat3("Field `", name, "` must have either #[input(...)] or #[output(...)] attribute"))
    }
}

/// The description and prefix that a field attribute's `key = "value"`
/// pairs give: the last string value of `desc` and of `prefix`, each
/// starting from what was given before; other keys and non-string values
/// change nothing.
pub open spec fn attr_values(start: (Seq<char>, Seq<char>), pairs: Seq<(Seq<char>, Option<Seq<char>>)>) -> (Seq<char>, Seq<char>)
    decreases pairs.len(),
{
    if pairs.len() == 0 {
        start
    } else {
        let prev = attr_values(start, pairs.drop_last());
        let (key, value) = pairs.last();
        match value {
            Some(v) => if key == "desc"@ {
                (v, prev.1)
            } else if key == "prefix"@ {
                (prev.0, v)
            } else {
                prev
            },
            None => prev,
        }
    }
}

/// The description and prefix after a field attribute (see `attr_values`).
pub fn field_attr_values(desc: String, prefix: String, pairs: &Vec<(String, Option<String>)>) -> (r: (String, String))
    ensures
        (r.0@, r.1@) == attr_values(
            (desc@, prefix@),
            pairs@.map_values(|p: (String, Option<String>)| (p.0@, match p.1 { Some(v) => Some(v@), None => None::<Seq<char>> })),
        ),
{
    let ghost ps = pairs@.map_values(|p: (String, Option<String>)| (p.0@, match p.1 { Some(v) => Some(v@), None => None::<Seq<char>> }));
    let mut d = desc;
    let mut p = prefix;
    let ghost start = (d@, p@);
    let mut i: usize = 0;
    while i < pairs.len()
        invariant
            i <= pairs@.len(),
            ps == pairs@.map_values(|p: (String, Option<String>)| (p.0@, match p.1 { Some(v) => Some(v@), None => None::<Seq<char>> })),
            (d@, p@) == attr_values(start, ps.take(i as int)),
        decreases pairs@.len() - i,
    {
        assert(ps.take(i + 1).drop_last() =~= ps.take(i as int));
        assert(ps.take(i + 1).last() == ps[i as int]);
        match &pairs[i].1 {
            Some(v) => {
                proof {
                    reveal_strlit("desc");
                    reveal_strlit("prefix");
                }
                if str_eq(pairs[i].0.as_str(), "desc") {
                    d = v.clone();
                } else if str_eq(pairs[i].0.as_str(), "prefix") {
                    p = v.clone();
                }
            },
            None => {},
        }
        i = i + 1;
    }
    assert(ps.take(i as int) =~= ps);
    (d, p)
}

/// Marker type for input fields.
pub struct InputField;

/// Marker type for output fields.
pub struct OutputField;

/// Implemented by a task signature: its instruction and its input and output
/// fields.
pub trait SignatureFields: Send + Sync {
    /// The declared instruction of the signature.
    spec fn declared_instruction() -> Seq<char>;

    /// The declared input fields of the signature.
    spec fn declared_inputs() -> Seq<FieldDescriptor>;

    /// The declared output fields of the signature.
    spec fn declared_outputs() -> Seq<FieldDescriptor>;

    fn instruction() -> (r: &'static str)
        ensures
            r@ == Self::declared_instruction(),
    ;

    fn input_fields() -> (r: Vec<FieldDescriptor>)
        ensures
            r@ == Self::declared_inputs(),
    ;

    fn output_fields() -> (r: Vec<FieldDescriptor>)
        ensures
            r@ == Self::declared_outputs(),
    ;

    fn signature_name() -> &'static str;

    /// "Given the fields `in1`, ..., produce the fields `out1`, ...."
    fn default_instruction() -> (r: String)
        ensures
            r@ == default_instruction_of(Self::declared_inputs(), Self::declared_outputs()),
    {
        let ins = Self::input_fields();
        let outs = Self::output_fields();
        default_instruction_for(ins.as_slice(), outs.as_slice())
    }

    /// The declared instruction, or the default one where it is empty.
    fn effective_instruction() -> (r: String)
        ensures
            r@ == effective_instruction_of(Self::declared_instruction(), Self::declared_inputs(), Self::declared_outputs()),
    {
        let ins = Self::input_fields();
        let outs = Self::output_fields();
        effective_instruction_for(Self::instruction(), ins.as_slice(), outs.as_slice())
    }
}

/// Conversion between a typed signature value and an `Example`.
pub trait FromExample: Sized {
    fn from_example(example: &Example) -> Option<Self>;

    fn to_example(&self) -> Example;
}

} // verus!
