//! Whole-dictionary generation: the files a dictionary gives rise to, and
//! the plan of a run over several dictionaries.

use crate::dictionary::Component;
use crate::dictionary::FieldDef;
use crate::dictionary::FixSpec;
use crate::dictionary::Message;
use crate::dictionary::Reference;
use crate::dictionary::SchemaError;
use crate::emit::ascii_names;
use crate::emit::text_of;
use vstd::prelude::*;
use vstd::string::*;
use vstd::utf8::is_ascii_chars;

verus! {

/// The parts, one after the other.
pub open spec fn concat_all(parts: Seq<Seq<char>>) -> Seq<char>
    decreases parts.len(),
{
    if parts.len() == 0 {
        Seq::empty()
    } else {
        concat_all(parts.drop_last()) + parts.last()
    }
}

/// What every emitted file begins with.
pub open spec fn code_header() -> Seq<char> {
    "\n#[allow(unused_imports)]\nuse chrono::prelude::*;\n\n"@
}

/// What the file of fields imports.
pub open spec fn fields_imports() -> Seq<char> {
    "\n#[allow(unused_imports)]\nuse std::fmt;\n\n#[allow(unused_imports)]\nuse crate::prelude::*;\n\n"@
}

/// What the file of messages imports.
pub open spec fn messages_imports() -> Seq<char> {
    "\n#[allow(unused_imports)]\nuse super::fields::*;\n\n#[allow(unused_imports)]\nuse crate::prelude::*;\n\n"@
}

/// The sources of the fields, in order.
pub open spec fn field_codes(fields: Seq<FieldDef>) -> Seq<Seq<char>> {
    Seq::new(fields.len(), |i: int| fields[i].code())
}

/// The sources of the components, in order.
pub open spec fn component_codes(components: Seq<Component>) -> Seq<Seq<char>> {
    Seq::new(components.len(), |i: int| components[i].code())
}

/// The sources of the messages, in order.
pub open spec fn message_codes(messages: Seq<Message>) -> Seq<Seq<char>> {
    Seq::new(messages.len(), |i: int| messages[i].code())
}

/// Whether every field of the list has ASCII names.
pub open spec fn fields_ascii(fields: Seq<FieldDef>) -> bool {
    forall|i: int| 0 <= i < fields.len() ==> (#[trigger] fields[i]).ascii_names()
}

/// Whether every field of the list is scalar or may be enumerated.
pub open spec fn fields_allowed(fields: Seq<FieldDef>) -> bool {
    forall|i: int| 0 <= i < fields.len() ==> (#[trigger] fields[i]).enum_allowed()
}

/// Whether the references of every component name their items in ASCII.
pub open spec fn components_ascii(components: Seq<Component>) -> bool {
    forall|i: int| 0 <= i < components.len() ==> ascii_names((#[trigger] components[i]).refs@)
}

/// Whether the references of every message name their items in ASCII.
pub open spec fn messages_ascii(messages: Seq<Message>) -> bool {
    forall|i: int| 0 <= i < messages.len() ==> ascii_names((#[trigger] messages[i]).refs@)
}

/// Tells whether every reference of the list names its item in ASCII.
pub fn refs_are_ascii(refs: &Vec<Reference>) -> (b: bool)
    ensures
        b == ascii_names(refs@),
{
    let mut i: usize = 0;
    while i < refs.len()
        invariant
            i <= refs.len(),
            forall|k: int| 0 <= k < i ==> (#[trigger] refs@[k]).ascii_name(),
        decreases refs.len() - i,
    {
        if !refs[i].as_type_value().is_ascii() {
            return false;
        }
        i += 1;
    }
    true
}

impl FieldDef {
    /// Tells whether the field's name and its values' descriptions are ASCII.
    pub fn has_ascii_names(&self) -> (b: bool)
        ensures
            b == self.ascii_names(),
    {
        if !self.name.as_str().is_ascii() {
            return false;
        }
        let mut i: usize = 0;
        while i < self.values.len()
            invariant
                i <= self.values.len(),
                forall|k: int|
                    0 <= k < i ==> is_ascii_chars((#[trigger] self.values@[k]).description@),
            decreases self.values.len() - i,
        {
            if !self.values[i].description.as_str().is_ascii() {
                return false;
            }
            i += 1;
        }
        true
    }
}

/// The names and contents of the files that one dictionary gives rise to.
#[derive(Debug, PartialEq)]
pub struct SpecFiles {
    /// The name of the file that holds a dump of the dictionary.
    pub parsed_name: String,
    /// The name of the file of fields.
    pub fields_name: String,
    /// The source of the file of fields.
    pub fields_code: String,
    /// The name of the file of messages.
    pub messages_name: String,
    /// The source of the file of messages.
    pub messages_code: String,
}

impl FixSpec {
    /// Whether every name that the emitter respells is ASCII.
    pub open spec fn ascii_names(&self) -> bool {
        &&& fields_ascii(self.field.items@)
        &&& self.header matches Some(h) ==> ascii_names(h.refs@)
        &&& self.trailer matches Some(t) ==> ascii_names(t.refs@)
        &&& self.component matches Some(c) ==> components_ascii(c.items@)
        &&& messages_ascii(self.message.items@)
    }

    /// The source of the file of fields: one type per field, in order.
    pub open spec fn fields_text(&self) -> Seq<char> {
        code_header() + fields_imports() + concat_all(field_codes(self.field.items@))
    }

    /// The source of the header record, if the dictionary has a header.
    pub open spec fn header_text(&self) -> Seq<char> {
        match self.header {
            Some(h) => h.code(),
            None => Seq::empty(),
        }
    }

    /// The source of the trailer record, if the dictionary has a trailer.
    pub open spec fn trailer_text(&self) -> Seq<char> {
        match self.trailer {
            Some(t) => t.code(),
            None => Seq::empty(),
        }
    }

    /// The sources of the component records, in order.
    pub open spec fn components_text(&self) -> Seq<char> {
        match self.component {
            Some(c) => concat_all(component_codes(c.items@)),
            None => Seq::empty(),
        }
    }

    /// The source of the file of messages: the header, the trailer, the
    /// components and the messages, in that order.
    pub open spec fn messages_text(&self) -> Seq<char> {
        code_header() + messages_imports() + self.header_text() + self.trailer_text()
            + self.components_text() + concat_all(message_codes(self.message.items@))
    }

    /// Tells whether every name that the emitter respells is ASCII.
    pub fn has_ascii_names(&self) -> (b: bool)
        ensures
            b == self.ascii_names(),
    {
        let mut i: usize = 0;
        while i < self.field.items.len()
            invariant
                i <= self.field.items.len(),
                forall|k: int| 0 <= k < i ==> (#[trigger] self.field.items@[k]).ascii_names(),
            decreases self.field.items.len() - i,
        {
            if !self.field.items[i].has_ascii_names() {
                return false;
            }
            i += 1;
        }
        if let Some(h) = &self.header {
            if !refs_are_ascii(&h.refs) {
                return false;
            }
        }
        if let Some(t) = &self.trailer {
            if !refs_are_ascii(&t.refs) {
                return false;
            }
        }
        if let Some(c) = &self.component {
            let mut j: usize = 0;
            while j < c.items.len()
                invariant
                    j <= c.items.len(),
                    self.component == Some(*c),
                    forall|k: int| 0 <= k < j ==> ascii_names((#[trigger] c.items@[k]).refs@),
                decreases c.items.len() - j,
            {
                if !refs_are_ascii(&c.items[j].refs) {
                    assert(!ascii_names(c.items@[j as int].refs@));
                    return false;
                }
                j += 1;
            }
        }
        let mut m: usize = 0;
        while m < self.message.items.len()
            invariant
                m <= self.message.items.len(),
                forall|k: int|
                    0 <= k < m ==> ascii_names((#[trigger] self.message.items@[k]).refs@),
            decreases self.message.items.len() - m,
        {
            if !refs_are_ascii(&self.message.items[m].refs) {
                return false;
            }
            m += 1;
        }
        true
    }

    /// Emits the file of fields. The first field that lists values without
    /// a wire type that can be enumerated stops the emission.
    pub fn fields_code(&self) -> (r: Result<String, SchemaError>)
        requires
            fields_ascii(self.field.items@),
        ensures
            r is Ok <==> fields_allowed(self.field.items@),
            r is Ok ==> r.unwrap()@ == self.fields_text(),
            r is Err ==> r.unwrap_err() == SchemaError::EnumOnScalarType,
    {
        let mut out = String::from_str(
            "\n#[allow(unused_imports)]\nuse chrono::prelude::*;\n\n",
        ).concat(
            "\n#[allow(unused_imports)]\nuse std::fmt;\n\n#[allow(unused_imports)]\nuse crate::prelude::*;\n\n",
        );
        let ghost codes = field_codes(self.field.items@);
        let mut i: usize = 0;
        assert(codes.take(0) =~= Seq::<Seq<char>>::empty());
        while i < self.field.items.len()
            invariant
                i <= self.field.items.len(),
                fields_ascii(self.field.items@),
                codes == field_codes(self.field.items@),
                forall|k: int| 0 <= k < i ==> (#[trigger] self.field.items@[k]).enum_allowed(),
                out@ == code_header() + fields_imports() + concat_all(codes.take(i as int)),
            decreases self.field.items.len() - i,
        {
            assert(self.field.items@[i as int].ascii_names());
            match self.field.items[i].as_code() {
                Ok(code) => {
                    assert(codes.take(i + 1).drop_last() =~= codes.take(i as int));
                    assert(codes.take(i + 1).last() == code@);
                    out.append(code.as_str());
                    assert(out@ =~= code_header() + fields_imports() + concat_all(
                        codes.take(i + 1),
                    ));
                },
                Err(e) => {
                    return Err(e);
                },
            }
            i += 1;
        }
        assert(codes.take(i as int) =~= codes);
        Ok(out)
    }

    /// Emits the file of messages.
    pub fn messages_code(&self) -> (r: String)
        requires
            self.ascii_names(),
        ensures
            r@ == self.messages_text(),
    {
        let mut out = String::from_str(
            "\n#[allow(unused_imports)]\nuse chrono::prelude::*;\n\n",
        ).concat(
            "\n#[allow(unused_imports)]\nuse super::fields::*;\n\n#[allow(unused_imports)]\nuse crate::prelude::*;\n\n",
        );
        if let Some(h) = &self.header {
            let code = h.as_code();
            out.append(code.as_str());
        }
        assert(out@ =~= code_header() + messages_imports() + self.header_text());
        if let Some(t) = &self.trailer {
            let code = t.as_code();
            out.append(code.as_str());
        }
        assert(out@ =~= code_header() + messages_imports() + self.header_text()
            + self.trailer_text());
        let ghost base = out@;
        if let Some(c) = &self.component {
            let ghost codes = component_codes(c.items@);
            let mut j: usize = 0;
            assert(codes.take(0) =~= Seq::<Seq<char>>::empty());
            assert(out@ =~= base + concat_all(codes.take(0)));
            while j < c.items.len()
                invariant
                    j <= c.items.len(),
                    components_ascii(c.items@),
                    codes == component_codes(c.items@),
                    out@ == base + concat_all(codes.take(j as int)),
                decreases c.items.len() - j,
            {
                assert(ascii_names(c.items@[j as int].refs@));
                let code = c.items[j].as_code();
                assert(codes.take(j + 1).drop_last() =~= codes.take(j as int));
                assert(codes.take(j + 1).last() == code@);
                out.append(code.as_str());
                assert(out@ =~= base + concat_all(codes.take(j + 1)));
                j += 1;
            }
            assert(codes.take(j as int) =~= codes);
        }
        assert(out@ =~= base + self.components_text());
        let ghost base = out@;
        let ghost codes = message_codes(self.message.items@);
        let mut m: usize = 0;
        assert(codes.take(0) =~= Seq::<Seq<char>>::empty());
        assert(out@ =~= base + concat_all(codes.take(0)));
        while m < self.message.items.len()
            invariant
                m <= self.message.items.len(),
                messages_ascii(self.message.items@),
                codes == message_codes(self.message.items@),
                out@ == base + concat_all(codes.take(m as int)),
            decreases self.message.items.len() - m,
        {
            assert(ascii_names(self.message.items@[m as int].refs@));
            let code = self.message.items[m].as_code();
            assert(codes.take(m + 1).drop_last() =~= codes.take(m as int));
            assert(codes.take(m + 1).last() == code@);
            out.append(code.as_str());
            assert(out@ =~= base + concat_all(codes.take(m + 1)));
            m += 1;
        }
        assert(codes.take(m as int) =~= codes);
        out
    }

    /// Generates the files of this dictionary, named after `stem`: the
    /// file of fields, the file of messages, and the name under which a
    /// dump of the dictionary is to be kept. A dictionary with a name
    /// outside ASCII is refused, and so is one with a field that lists
    /// values without a wire type that can be enumerated.
    pub fn generate_specfile(&self, stem: &str) -> (r: Result<SpecFiles, SchemaError>)
        ensures
            r is Ok <==> self.ascii_names() && fields_allowed(self.field.items@),
            !self.ascii_names() ==> r == Err::<SpecFiles, SchemaError>(SchemaError::NonAsciiName),
            self.ascii_names() && !fields_allowed(self.field.items@) ==> r == Err::<
                SpecFiles,
                SchemaError,
            >(SchemaError::EnumOnScalarType),
            r matches Ok(files) ==> {
                &&& files.parsed_name@ == stem@ + ".parsed.json"@
                &&& files.fields_name@ == stem@ + "_fields.rs"@
                &&& files.fields_code@ == self.fields_text()
                &&& files.messages_name@ == stem@ + "_messages.rs"@
                &&& files.messages_code@ == self.messages_text()
            },
    {
        if !self.has_ascii_names() {
            return Err(SchemaError::NonAsciiName);
        }
        match self.fields_code() {
            Ok(fields_code) => {
                let messages_code = self.messages_code();
                Ok(
                    SpecFiles {
                        parsed_name: String::from_str(stem).concat(".parsed.json"),
                        fields_name: String::from_str(stem).concat("_fields.rs"),
                        fields_code,
                        messages_name: String::from_str(stem).concat("_messages.rs"),
                        messages_code,
                    },
                )
            },
            Err(e) => Err(e),
        }
    }
}

/// What a run over several dictionaries does next.
#[derive(Debug, PartialEq)]
pub enum BuildStep {
    /// Read the dictionary at `path`, generate its files and write them;
    /// run the formatter on the two sources where `format` is set.
    Generate { path: String, format: bool },
    /// Every dictionary was generated: the run ends well.
    Finish,
    /// The last dictionary failed: the run ends with its error.
    Abort,
}

/// The configuration of a run: the dictionaries to generate from, in
/// order, and whether the emitted sources are to be formatted.
#[derive(Debug)]
pub struct Builder {
    paths: Vec<String>,
    enable_rustfmt: bool,
}

impl Builder {
    /// The paths of the dictionaries, in the order they were added.
    pub closed spec fn paths(&self) -> Seq<Seq<char>> {
        text_of(self.paths@)
    }

    /// Whether the emitted sources are to be formatted.
    pub closed spec fn formatting(&self) -> bool {
        self.enable_rustfmt
    }

    /// A run over no dictionary, without formatting.
    pub fn new() -> (r: Self)
        ensures
            r.paths() == Seq::<Seq<char>>::empty(),
            !r.formatting(),
    {
        let r = Builder { paths: Vec::new(), enable_rustfmt: false };
        assert(r.paths() =~= Seq::<Seq<char>>::empty());
        r
    }

    /// The same run with one more dictionary, after the others.
    pub fn add_path(self, path: &str) -> (r: Self)
        ensures
            r.paths() == self.paths().push(path@),
            r.formatting() == self.formatting(),
    {
        let mut paths = self.paths;
        paths.push(String::from_str(path));
        let r = Builder { paths, enable_rustfmt: self.enable_rustfmt };
        assert(r.paths() =~= self.paths().push(path@));
        r
    }

    /// The same run with formatting switched on or off.
    pub fn enable_rustfmt(self, value: bool) -> (r: Self)
        ensures
            r.paths() == self.paths(),
            r.formatting() == value,
    {
        Builder { paths: self.paths, enable_rustfmt: value }
    }

    /// Decides the next step of the run, after `generated` dictionaries
    /// were generated: the dictionaries are taken in order, and the first
    /// failure ends the run.
    pub fn build(&self, generated: usize, failed: bool) -> (step: BuildStep)
        ensures
            failed ==> step is Abort,
            !failed && generated >= self.paths().len() ==> step is Finish,
            !failed && generated < self.paths().len() ==> (step matches BuildStep::Generate {
                path,
                format,
            } && path@ == self.paths()[generated as int] && format == self.formatting()),
    {
        if failed {
            BuildStep::Abort
        } else if generated < self.paths.len() {
            BuildStep::Generate {
                path: self.paths[generated].clone(),
                format: self.enable_rustfmt,
            }
        } else {
            BuildStep::Finish
        }
    }
}

} // verus!
