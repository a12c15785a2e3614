//! Writing the WIT model as WIT source text.
//!
//! The spec functions below say, character for character, what text each
//! export and each type reference becomes; the serializer is proved to write
//! exactly that.

use vstd::prelude::*;
use vstd::string::StringExecFns;

use crate::text::{
    ascii_lower_char, is_ascii_char, is_ascii_text, is_upper_char, lower_chars, is_uppercase, join, lowercase_of,
    push_char, string_of, trim_end, trim_matches, trim_start,
};
use crate::wit::model::{
    EnumMeta, FunctionMeta, Ident, PrimitiveMeta, RecordMeta, TupleMeta, VariantMeta,
    VariantOption, WitExport, WitMeta,
};

verus! {

broadcast use vstd::string::group_string_axioms;

/// `std::io::Error`, carried by [`SerializeError`].
#[verifier::external_type_specification]
#[verifier::external_body]
pub struct ExIoError(std::io::Error);

/// The error type of serialization: a failed write. Writing into an in-memory
/// buffer cannot fail, so no function of this module returns it.
#[derive(Debug)]
pub enum SerializeError {
    Io(std::io::Error),
}

impl From<std::io::Error> for SerializeError {
    fn from(e: std::io::Error) -> (r: Self)
        ensures
            r == SerializeError::Io(e),
    {
        SerializeError::Io(e)
    }
}

impl vstd::std_specs::convert::FromSpecImpl<std::io::Error> for SerializeError {
    open spec fn obeys_from_spec() -> bool {
        true
    }

    open spec fn from_spec(v: std::io::Error) -> Self {
        SerializeError::Io(v)
    }
}

pub type Res<T> = Result<T, SerializeError>;

// ---------------------------------------------------------------------------
// The text each piece becomes
// ---------------------------------------------------------------------------

/// `level` copies of the three-space indent.
pub open spec fn indent_text(level: nat) -> Seq<char>
    decreases level,
{
    if level == 0 {
        Seq::empty()
    } else {
        indent_text((level - 1) as nat) + "   "@
    }
}

/// What the serializer writes for a character that is neither uppercase nor
/// `_`: an ASCII character as itself, any other as the byte of its low eight
/// bits, here the character with that code.
pub open spec fn written_char(c: char) -> char {
    if is_ascii_char(c) {
        c
    } else {
        ((c as u32) % 256) as char
    }
}

/// The kebab-case writing of `t`, character by character. `at_start` holds
/// before the first character; `prev_upper` says whether the character before
/// was uppercase. An uppercase character is lowercased and, unless it starts
/// the name or follows another uppercase one, preceded by `-`; `_` becomes `-`;
/// any other character is written as [`written_char`].
pub open spec fn kebab_from(t: Seq<char>, at_start: bool, prev_upper: bool) -> Seq<char>
    decreases t.len(),
{
    if t.len() == 0 {
        Seq::empty()
    } else {
        let c = t[0];
        if is_upper_char(c) {
            (if !at_start && !prev_upper {
                seq!['-']
            } else {
                Seq::empty()
            }) + lower_chars(c) + kebab_from(t.drop_first(), false, true)
        } else if c == '_' {
            seq!['-'] + kebab_from(t.drop_first(), false, false)
        } else {
            seq![written_char(c)] + kebab_from(t.drop_first(), false, false)
        }
    }
}

/// A name as the serializer writes it: leading and trailing `_` dropped, then kebab-cased.
pub open spec fn kebab(s: Seq<char>) -> Seq<char> {
    kebab_from(trim_end(trim_start(s, '_'), '_'), true, false)
}

/// The WIT spelling of a primitive type.
pub open spec fn primitive_text(p: PrimitiveMeta) -> Seq<char> {
    match p {
        PrimitiveMeta::S8 => "s8"@,
        PrimitiveMeta::S16 => "s16"@,
        PrimitiveMeta::S32 => "s32"@,
        PrimitiveMeta::S64 => "s64"@,
        PrimitiveMeta::U8 => "u8"@,
        PrimitiveMeta::U16 => "u16"@,
        PrimitiveMeta::U32 => "u32"@,
        PrimitiveMeta::U64 => "u64"@,
        PrimitiveMeta::F32 => "f32"@,
        PrimitiveMeta::F64 => "f64"@,
        PrimitiveMeta::Bool => "bool"@,
        PrimitiveMeta::Char => "char"@,
        PrimitiveMeta::String => "string"@,
    }
}

/// A type reference as written in WIT. Named types are referred to by their
/// kebab-cased name; a tuple is `tuple<` and its items joined by `, `, then `>`.
pub open spec fn wit_ref_text(m: WitMeta) -> Seq<char>
    decreases m,
{
    match m {
        WitMeta::Record(meta) => kebab(meta.name.0@),
        WitMeta::Variant(meta) => kebab(meta.name.0@),
        WitMeta::Enum(meta) => kebab(meta.name.0@),
        WitMeta::FlagMeta(meta) => kebab(meta.name.0@),
        WitMeta::Result(meta) => "result<"@ + wit_ref_text(*meta.ok) + ", "@ + wit_ref_text(
            *meta.err,
        ) + ">"@,
        WitMeta::Option(inner) => "option<"@ + wit_ref_text(*inner) + ">"@,
        WitMeta::List(inner) => "list<"@ + wit_ref_text(*inner) + ">"@,
        WitMeta::Tuple(meta) => "tuple<"@ + refs_text(meta.items@) + ">"@,
        WitMeta::Primitive(p) => primitive_text(p),
    }
}

/// Type references joined by `, `.
pub open spec fn refs_text(items: Seq<WitMeta>) -> Seq<char>
    decreases items,
{
    if items.len() == 0 {
        Seq::empty()
    } else if items.len() == 1 {
        wit_ref_text(items[0])
    } else {
        refs_text(items.drop_last()) + ", "@ + wit_ref_text(items.last())
    }
}

/// A record field line (without its indentation): `name: type`.
pub open spec fn field_text(field: (String, WitMeta)) -> Seq<char> {
    field.0@ + ": "@ + wit_ref_text(field.1)
}

/// A variant case: its kebab-cased name, then, if it has a payload, the payload
/// types joined by `, ` in parentheses.
pub open spec fn option_text(option: VariantOption) -> Seq<char> {
    kebab(option.name.0@) + if option.fields@.len() == 0 {
        Seq::empty()
    } else {
        "("@ + refs_text(option.fields@) + ")"@
    }
}

/// A function parameter: `kebab-name: type`.
pub open spec fn arg_text(arg: (String, WitMeta)) -> Seq<char> {
    kebab(arg.0@) + ": "@ + wit_ref_text(arg.1)
}

/// Each item prefixed with `prefix`, joined by `sep`.
pub open spec fn prefixed_join(items: Seq<Seq<char>>, prefix: Seq<char>, sep: Seq<char>) -> Seq<
    char,
> {
    join(items.map_values(|s: Seq<char>| prefix + s), sep)
}

/// The block `<indent>keyword name {\n<items>\n<indent>}\n`, the items one per
/// line at one level deeper and joined by `sep`.
pub open spec fn block_text(
    keyword: Seq<char>,
    name: Seq<char>,
    items: Seq<Seq<char>>,
    sep: Seq<char>,
    level: nat,
) -> Seq<char> {
    indent_text(level) + keyword + kebab(name) + " {"@ + "\n"@ + prefixed_join(
        items,
        indent_text(level + 1),
        sep,
    ) + "\n"@ + indent_text(level) + "}"@ + "\n"@
}

/// An export written at indentation `level`. (Flags have no WIT form here.)
pub open spec fn export_text(e: WitExport, level: nat) -> Seq<char> {
    match e {
        WitExport::Record(meta) => block_text(
            "record "@,
            meta.name.0@,
            meta.fields@.map_values(|f: (String, WitMeta)| field_text(f)),
            "\n"@,
            level,
        ),
        WitExport::Variant(meta) => block_text(
            "variant "@,
            meta.name.0@,
            meta.fields@.map_values(|o: VariantOption| option_text(o)),
            ",\n"@,
            level,
        ),
        WitExport::Enum(meta) => block_text(
            "enum "@,
            meta.name.0@,
            meta.variants@.map_values(|v: Ident| kebab(v.0@)),
            ",\n"@,
            level,
        ),
        WitExport::Function(meta) => indent_text(level) + kebab(meta.name.0@) + ": func("@ + join(
            meta.args@.map_values(|a: (String, WitMeta)| arg_text(a)),
            ", "@,
        ) + ") -> "@ + wit_ref_text(*meta.result) + "\n"@,
        WitExport::Flag(_) => Seq::empty(),
    }
}

/// The exports written one after another at `level`, each followed by an empty line.
pub open spec fn exports_text(exports: Seq<WitExport>, level: nat) -> Seq<char>
    decreases exports.len(),
{
    if exports.len() == 0 {
        Seq::empty()
    } else {
        exports_text(exports.drop_last(), level) + export_text(exports.last(), level) + "\n"@
    }
}

/// The whole interface file: the interface with its exports and a world exporting it.
pub open spec fn interface_text(
    interface_name: Seq<char>,
    world_name: Seq<char>,
    exports: Seq<WitExport>,
) -> Seq<char> {
    "interface "@ + interface_name + " {\n"@ + exports_text(exports, 1) + "\n}\n\nworld "@
        + world_name + " {\n   export "@ + interface_name + ";\n}"@
}

// ---------------------------------------------------------------------------
// What the serializer can write
// ---------------------------------------------------------------------------

/// A character the serializer writes as valid text: an uppercase one (its
/// lowercase form is written) or one whose low byte is ASCII (that byte is
/// written). Any other low byte is not valid UTF-8 on its own.
pub open spec fn writable_char(c: char) -> bool {
    is_upper_char(c) || (c as u32) % 256 < 128
}

/// A name can be kebab-cased into valid text when each of its characters is writable.
pub open spec fn name_writable(s: Seq<char>) -> bool {
    forall|i: int| 0 <= i < s.len() ==> writable_char(#[trigger] s[i])
}

/// Every name that writing the reference kebab-cases is writable.
pub open spec fn ref_writable(m: WitMeta) -> bool
    decreases m,
{
    match m {
        WitMeta::Record(meta) => name_writable(meta.name.0@),
        WitMeta::Variant(meta) => name_writable(meta.name.0@),
        WitMeta::Enum(meta) => name_writable(meta.name.0@),
        WitMeta::FlagMeta(meta) => name_writable(meta.name.0@),
        WitMeta::Result(meta) => ref_writable(*meta.ok) && ref_writable(*meta.err),
        WitMeta::Option(inner) => ref_writable(*inner),
        WitMeta::List(inner) => ref_writable(*inner),
        WitMeta::Tuple(meta) => refs_writable(meta.items@),
        WitMeta::Primitive(_) => true,
    }
}

pub open spec fn refs_writable(items: Seq<WitMeta>) -> bool
    decreases items,
{
    if items.len() == 0 {
        true
    } else {
        refs_writable(items.drop_last()) && ref_writable(items.last())
    }
}

/// The case name and each of its payload types are writable.
pub open spec fn option_writable(option: VariantOption) -> bool {
    &&& name_writable(option.name.0@)
    &&& forall|j: int| 0 <= j < option.fields@.len() ==> ref_writable(#[trigger] option.fields@[j])
}

/// The parameter name and its type are writable.
pub open spec fn arg_writable(arg: (String, WitMeta)) -> bool {
    name_writable(arg.0@) && ref_writable(arg.1)
}

/// The export is not a flag set, which has no WIT form here, and every name
/// that writing it kebab-cases is writable.
pub open spec fn export_writable(e: WitExport) -> bool {
    match e {
        WitExport::Record(meta) => name_writable(meta.name.0@) && forall|i: int|
            0 <= i < meta.fields@.len() ==> ref_writable(#[trigger] meta.fields@[i].1),
        WitExport::Variant(meta) => name_writable(meta.name.0@) && forall|i: int|
            0 <= i < meta.fields@.len() ==> option_writable(#[trigger] meta.fields@[i]),
        WitExport::Enum(meta) => name_writable(meta.name.0@) && forall|i: int|
            0 <= i < meta.variants@.len() ==> name_writable(#[trigger] meta.variants@[i].0@),
        WitExport::Function(meta) => {
            &&& name_writable(meta.name.0@)
            &&& ref_writable(*meta.result)
            &&& forall|i: int| 0 <= i < meta.args@.len() ==> arg_writable(#[trigger] meta.args@[i])
        },
        WitExport::Flag(_) => false,
    }
}

pub open spec fn exports_writable(exports: Seq<WitExport>) -> bool {
    forall|i: int| 0 <= i < exports.len() ==> export_writable(#[trigger] exports[i])
}

// ---------------------------------------------------------------------------
// The serializer
// ---------------------------------------------------------------------------

/// Writes the WIT model into `writer`, indenting by `level` steps of `indent`.
pub struct WitSerializer {
    pub writer: String,
    pub indent: &'static str,
    pub level: usize,
}

impl WitSerializer {
    /// The indent is three spaces, as [`Self::new`] sets it.
    pub open spec fn wf(&self) -> bool {
        self.indent@ == "   "@
    }

    /// The serializer with its level set to `level`, nothing else changed.
    pub open spec fn at_level(self, level: usize) -> Self {
        WitSerializer { writer: self.writer, indent: self.indent, level }
    }

    /// Going one level deeper and then one level back leaves the serializer
    /// as it was: [`Self::dec_indent`] undoes [`Self::inc_indent`], and neither
    /// writes anything.
    pub proof fn law_dec_indent_undoes_inc_indent(w: WitSerializer)
        requires
            w.level < usize::MAX,
        ensures
            ({
                let deeper = w.at_level((w.level + 1) as usize);
                &&& deeper.writer == w.writer
                &&& deeper.at_level((deeper.level - 1) as usize) == w
            }),
    {
    }

    /// A serializer that writes after the text already in `writer`, at `level`.
    pub fn new(writer: String, level: usize) -> (r: Self)
        ensures
            r.wf(),
            r.writer@ == writer@,
            r.level == level,
    {
        WitSerializer { writer, indent: "   ", level }
    }

    fn write_str(&mut self, s: &str) -> (r: Res<()>)
        ensures
            final(self).writer@ == old(self).writer@ + s@,
            final(self).level == old(self).level,
            final(self).indent == old(self).indent,
            r is Ok,
    {
        self.writer.append(s);
        Ok(())
    }

    fn new_line(&mut self) -> (r: Res<()>)
        ensures
            final(self).writer@ == old(self).writer@ + "\n"@,
            final(self).level == old(self).level,
            final(self).indent == old(self).indent,
            r is Ok,
    {
        self.write_str("\n")
    }

    pub fn inc_indent(&mut self)
        requires
            old(self).level < usize::MAX,
        ensures
            *final(self) == old(self).at_level((old(self).level + 1) as usize),
            final(self).level == old(self).level + 1,
            final(self).writer == old(self).writer,
            final(self).indent == old(self).indent,
    {
        self.level += 1;
    }

    pub fn dec_indent(&mut self)
        requires
            old(self).level > 0,
        ensures
            *final(self) == old(self).at_level((old(self).level - 1) as usize),
            final(self).level == old(self).level - 1,
            final(self).writer == old(self).writer,
            final(self).indent == old(self).indent,
    {
        self.level -= 1;
    }

    fn write_indentation(&mut self) -> (r: Res<()>)
        requires
            old(self).wf(),
        ensures
            final(self).writer@ == old(self).writer@ + indent_text(old(self).level as nat),
            final(self).level == old(self).level,
            final(self).indent == old(self).indent,
            r is Ok,
    {
        let mut i: usize = 0;
        while i < self.level
            invariant
                self.wf(),
                i <= self.level,
                self.level == old(self).level,
                self.indent == old(self).indent,
                self.writer@ == old(self).writer@ + indent_text(i as nat),
            decreases self.level - i,
        {
            let indent = self.indent;
            let _ = self.write_str(indent);
            i = i + 1;
        }
        Ok(())
    }

    fn write_indent_line(&mut self, s: &str) -> (r: Res<()>)
        requires
            old(self).wf(),
        ensures
            final(self).writer@ == old(self).writer@ + indent_text(old(self).level as nat) + s@
                + "\n"@,
            final(self).level == old(self).level,
            final(self).indent == old(self).indent,
            r is Ok,
    {
        let _ = self.write_indentation();
        let _ = self.write_str(s);
        self.new_line()
    }

    /// Writes `s` in kebab case: see [`kebab`].
    pub fn write_kebab(&mut self, s: &str) -> (r: Res<()>)
        requires
            name_writable(s@),
        ensures
            final(self).writer@ == old(self).writer@ + kebab(s@),
            final(self).level == old(self).level,
            final(self).indent == old(self).indent,
            r is Ok,
    {
        let t = trim_matches(s, '_');
        let ghost start = self.writer@;
        let mut prev_char_uppercase = false;
        let mut i: usize = 0;
        assert(t@.skip(0) =~= t@);
        while i < t.len()
            invariant
                i <= t@.len(),
                t@ == trim_end(trim_start(s@, '_'), '_'),
                self.level == old(self).level,
                self.indent == old(self).indent,
                self.writer@ + kebab_from(t@.skip(i as int), i == 0, prev_char_uppercase) == start
                    + kebab_from(t@, true, false),
            decreases t@.len() - i,
        {
            let c = t[i];
            let ghost rest = t@.skip(i as int);
            assert(rest[0] == c);
            assert(rest.drop_first() =~= t@.skip(i + 1));
            if is_uppercase(c) {
                if i > 0 && !prev_char_uppercase {
                    push_char(&mut self.writer, '-');
                }
                let lowered = lowercase_of(c);
                self.writer.append(lowered.as_str());
                prev_char_uppercase = true;
            } else if c == '_' {
                push_char(&mut self.writer, '-');
                prev_char_uppercase = false;
            } else {
                let code: u32 = c as u32;
                let w: char = if code < 128 {
                    c
                } else {
                    ((code % 256) as u8) as char
                };
                push_char(&mut self.writer, w);
                prev_char_uppercase = false;
            }
            i = i + 1;
        }
        assert(t@.skip(t@.len() as int) =~= Seq::<char>::empty());
        Ok(())
    }

    /// Writes the items joined by `separator`, each preceded by the current
    /// indentation when `indented` holds.
    fn interleave(&mut self, indented: bool, separator: &str, items: &Vec<String>) -> (r: Res<()>)
        requires
            old(self).wf(),
        ensures
            final(self).writer@ == old(self).writer@ + prefixed_join(
                items@.map_values(|s: String| s@),
                if indented {
                    indent_text(old(self).level as nat)
                } else {
                    Seq::empty()
                },
                separator@,
            ),
            final(self).level == old(self).level,
            final(self).indent == old(self).indent,
            r is Ok,
    {
        let ghost prefix = if indented {
            indent_text(self.level as nat)
        } else {
            Seq::<char>::empty()
        };
        let ghost texts = items@.map_values(|s: String| s@);
        let ghost start = self.writer@;
        let mut first = true;
        let mut i: usize = 0;
        while i < items.len()
            invariant
                self.wf(),
                i <= items@.len(),
                first == (i == 0),
                self.level == old(self).level,
                self.indent == old(self).indent,
                prefix == (if indented {
                    indent_text(self.level as nat)
                } else {
                    Seq::<char>::empty()
                }),
                texts == items@.map_values(|s: String| s@),
                self.writer@ == start + prefixed_join(texts.take(i as int), prefix, separator@),
            decreases items@.len() - i,
        {
            if first {
                first = false;
            } else {
                let _ = self.write_str(separator);
            }
            if indented {
                let _ = self.write_indentation();
            }
            let _ = self.write_str(items[i].as_str());
            proof {
                let a = texts.take(i + 1).map_values(|s: Seq<char>| prefix + s);
                let b = texts.take(i as int).map_values(|s: Seq<char>| prefix + s);
                assert(a.drop_last() =~= b);
                assert(a.last() == prefix + items@[i as int]@);
            }
            i = i + 1;
        }
        assert(texts.take(items@.len() as int) =~= texts);
        Ok(())
    }

    /// Writes a type reference: see [`wit_ref_text`].
    fn wit_ref(&mut self, wit: &WitMeta) -> (r: Res<()>)
        requires
            old(self).wf(),
            ref_writable(*wit),
        ensures
            final(self).writer@ == old(self).writer@ + wit_ref_text(*wit),
            final(self).level == old(self).level,
            final(self).indent == old(self).indent,
            r is Ok,
        decreases *wit, 1nat,
    {
        match wit {
            WitMeta::Record(meta) => self.write_kebab(meta.name.0.as_str()),
            WitMeta::Variant(meta) => self.write_kebab(meta.name.0.as_str()),
            WitMeta::Enum(meta) => self.write_kebab(meta.name.0.as_str()),
            WitMeta::FlagMeta(meta) => self.write_kebab(meta.name.0.as_str()),
            WitMeta::Result(meta) => {
                let _ = self.write_str("result<");
                let _ = self.wit_ref(&meta.ok);
                let _ = self.write_str(", ");
                let _ = self.wit_ref(&meta.err);
                self.write_str(">")
            },
            WitMeta::Option(meta) => {
                let _ = self.write_str("option<");
                let _ = self.wit_ref(meta);
                self.write_str(">")
            },
            WitMeta::List(meta) => {
                let _ = self.write_str("list<");
                let _ = self.wit_ref(meta);
                self.write_str(">")
            },
            WitMeta::Tuple(meta) => {
                let _ = self.write_str("tuple<");
                let _ = self.write_refs(meta, wit);
                self.write_str(">")
            },
            WitMeta::Primitive(meta) => self.write_str(primitive_wit(meta)),
        }
    }

    /// Writes the items of a tuple joined by `, `.
    fn write_refs(&mut self, meta: &TupleMeta, wit: &WitMeta) -> (r: Res<()>)
        requires
            old(self).wf(),
            *wit == WitMeta::Tuple(*meta),
            refs_writable(meta.items@),
        ensures
            final(self).writer@ == old(self).writer@ + refs_text(meta.items@),
            final(self).level == old(self).level,
            final(self).indent == old(self).indent,
            r is Ok,
        decreases *wit, 0nat,
    {
        let ghost items = meta.items@;
        let ghost start = self.writer@;
        let mut i: usize = 0;
        while i < meta.items.len()
            invariant
                self.wf(),
                i <= items.len(),
                items == meta.items@,
                *wit == WitMeta::Tuple(*meta),
                refs_writable(items),
                self.level == old(self).level,
                self.indent == old(self).indent,
                self.writer@ == start + refs_text(items.take(i as int)),
            decreases items.len() - i,
        {
            proof {
                lemma_refs_writable_index(items, i as int);
                assert(items.take(i + 1).drop_last() =~= items.take(i as int));
            }
            if i > 0 {
                let _ = self.write_str(", ");
            }
            assert((*wit)->Tuple_0 == *meta);
            assert(decreases_to!(*wit => (*wit)->Tuple_0));
            assert(decreases_to!(*meta => meta.items));
            assert(decreases_to!(meta.items => meta.items@));
            assert(decreases_to!(meta.items@ => meta.items@[i as int]));
            let _ = self.wit_ref(&meta.items[i]);
            i = i + 1;
        }
        assert(items.take(items.len() as int) =~= items);
        Ok(())
    }

    /// Writes an export at the current level: see [`export_text`].
    pub fn into_wit(&mut self, meta: &WitExport) -> (r: Res<()>)
        requires
            old(self).wf(),
            old(self).level < usize::MAX,
            export_writable(*meta),
        ensures
            final(self).writer@ == old(self).writer@ + export_text(
                *meta,
                old(self).level as nat,
            ),
            final(self).writer@.take(old(self).writer@.len() as int) == old(self).writer@,
            final(self).level == old(self).level,
            final(self).indent == old(self).indent,
            r is Ok,
    {
        match meta {
            WitExport::Record(meta) => {
                let items = record_field_texts(meta);
                self.write_block("record ", meta.name.0.as_str(), &items, "\n")
            },
            WitExport::Variant(meta) => {
                let items = variant_option_texts(meta);
                self.write_block("variant ", meta.name.0.as_str(), &items, ",\n")
            },
            WitExport::Enum(meta) => {
                let items = enum_variant_texts(meta);
                self.write_block("enum ", meta.name.0.as_str(), &items, ",\n")
            },
            WitExport::Function(meta) => {
                let args = function_arg_texts(meta);
                let _ = self.write_indentation();
                let _ = self.write_kebab(meta.name.0.as_str());
                let _ = self.write_str(": func(");
                let _ = self.interleave(false, ", ", &args);
                proof {
                    assert(prefixed_join(args@.map_values(|s: String| s@), Seq::empty(), ", "@)
                        == join(
                        meta.args@.map_values(|a: (String, WitMeta)| arg_text(a)),
                        ", "@,
                    )) by {
                        assert(args@.map_values(|s: String| s@).map_values(
                            |s: Seq<char>| Seq::<char>::empty() + s,
                        ) =~= meta.args@.map_values(|a: (String, WitMeta)| arg_text(a)));
                    }
                }
                let _ = self.write_str(") -> ");
                let _ = self.wit_ref(&meta.result);
                self.new_line()
            },
            // Excluded by `export_writable`: flag sets have no WIT form here.
            WitExport::Flag(_) => Ok(()),
        }
    }

    /// Writes `<indent>keyword name {\n`, the items at one level deeper joined by
    /// `sep`, then `\n<indent>}\n`.
    fn write_block(&mut self, keyword: &str, name: &str, items: &Vec<String>, sep: &str) -> (r:
        Res<()>)
        requires
            old(self).wf(),
            old(self).level < usize::MAX,
            name_writable(name@),
        ensures
            final(self).writer@ == old(self).writer@ + block_text(
                keyword@,
                name@,
                items@.map_values(|s: String| s@),
                sep@,
                old(self).level as nat,
            ),
            final(self).level == old(self).level,
            final(self).indent == old(self).indent,
            r is Ok,
    {
        let _ = self.write_indentation();
        let _ = self.write_str(keyword);
        let _ = self.write_kebab(name);
        let _ = self.write_str(" {");
        let _ = self.new_line();
        self.inc_indent();
        let _ = self.interleave(true, sep, items);
        let _ = self.new_line();
        self.dec_indent();
        self.write_indent_line("}")
    }
}

proof fn lemma_refs_writable_index(items: Seq<WitMeta>, i: int)
    requires
        refs_writable(items),
        0 <= i < items.len(),
    ensures
        ref_writable(items[i]),
    decreases items.len(),
{
    if i < items.len() - 1 {
        lemma_refs_writable_index(items.drop_last(), i);
    }
}

/// The text a type reference becomes, in a fresh string.
fn wit_ref_string(wit: &WitMeta) -> (r: String)
    requires
        ref_writable(*wit),
    ensures
        r@ == wit_ref_text(*wit),
{
    let mut w = WitSerializer::new(String::new(), 0);
    let _ = w.wit_ref(wit);
    w.writer
}

fn record_field_texts(meta: &RecordMeta) -> (r: Vec<String>)
    requires
        forall|i: int| 0 <= i < meta.fields@.len() ==> ref_writable(#[trigger] meta.fields@[i].1),
    ensures
        r@.map_values(|s: String| s@) == meta.fields@.map_values(
            |f: (String, WitMeta)| field_text(f),
        ),
{
    let mut r: Vec<String> = Vec::new();
    let mut i: usize = 0;
    while i < meta.fields.len()
        invariant
            i <= meta.fields@.len(),
            forall|j: int|
                0 <= j < meta.fields@.len() ==> ref_writable(#[trigger] meta.fields@[j].1),
            r@.len() == i,
            forall|j: int| 0 <= j < i ==> (#[trigger] r@[j])@ == field_text(meta.fields@[j]),
        decreases meta.fields@.len() - i,
    {
        let mut s = string_of(meta.fields[i].0.as_str());
        s.append(": ");
        let t = wit_ref_string(&meta.fields[i].1);
        s.append(t.as_str());
        r.push(s);
        i = i + 1;
    }
    assert(r@.map_values(|s: String| s@) =~= meta.fields@.map_values(
        |f: (String, WitMeta)| field_text(f),
    ));
    r
}

fn variant_option_texts(meta: &VariantMeta) -> (r: Vec<String>)
    requires
        forall|i: int| 0 <= i < meta.fields@.len() ==> option_writable(#[trigger] meta.fields@[i]),
    ensures
        r@.map_values(|s: String| s@) == meta.fields@.map_values(|o: VariantOption| option_text(o)),
{
    let mut r: Vec<String> = Vec::new();
    let mut i: usize = 0;
    while i < meta.fields.len()
        invariant
            i <= meta.fields@.len(),
            forall|j: int| 0 <= j < meta.fields@.len() ==> option_writable(#[trigger] meta.fields@[j]),
            r@.len() == i,
            forall|j: int| 0 <= j < i ==> (#[trigger] r@[j])@ == option_text(meta.fields@[j]),
        decreases meta.fields@.len() - i,
    {
        let option = &meta.fields[i];
        assert(option_writable(meta.fields@[i as int]));
        let mut w = WitSerializer::new(String::new(), 0);
        let _ = w.write_kebab(option.name.0.as_str());
        if option.fields.len() > 0 {
            let _ = w.write_str("(");
            let ghost start = w.writer@;
            let ghost items = option.fields@;
            let mut k: usize = 0;
            while k < option.fields.len()
                invariant
                    w.wf(),
                    k <= items.len(),
                    items == option.fields@,
                    forall|j: int| 0 <= j < items.len() ==> ref_writable(#[trigger] items[j]),
                    w.writer@ == start + refs_text(items.take(k as int)),
                decreases items.len() - k,
            {
                assert(items.take(k + 1).drop_last() =~= items.take(k as int));
                assert(ref_writable(items[k as int]));
                if k > 0 {
                    let _ = w.write_str(", ");
                }
                let _ = w.wit_ref(&option.fields[k]);
                k = k + 1;
            }
            assert(items.take(items.len() as int) =~= items);
            let _ = w.write_str(")");
        }
        r.push(w.writer);
        i = i + 1;
    }
    assert(r@.map_values(|s: String| s@) =~= meta.fields@.map_values(
        |o: VariantOption| option_text(o),
    ));
    r
}

fn enum_variant_texts(meta: &EnumMeta) -> (r: Vec<String>)
    requires
        forall|i: int| 0 <= i < meta.variants@.len() ==> name_writable(#[trigger] meta.variants@[i].0@),
    ensures
        r@.map_values(|s: String| s@) == meta.variants@.map_values(|v: Ident| kebab(v.0@)),
{
    let mut r: Vec<String> = Vec::new();
    let mut i: usize = 0;
    while i < meta.variants.len()
        invariant
            i <= meta.variants@.len(),
            forall|j: int|
                0 <= j < meta.variants@.len() ==> name_writable(#[trigger] meta.variants@[j].0@),
            r@.len() == i,
            forall|j: int| 0 <= j < i ==> (#[trigger] r@[j])@ == kebab(meta.variants@[j].0@),
        decreases meta.variants@.len() - i,
    {
        let mut w = WitSerializer::new(String::new(), 0);
        assert(name_writable(meta.variants@[i as int].0@));
        let _ = w.write_kebab(meta.variants[i].0.as_str());
        r.push(w.writer);
        i = i + 1;
    }
    assert(r@.map_values(|s: String| s@) =~= meta.variants@.map_values(|v: Ident| kebab(v.0@)));
    r
}

fn function_arg_texts(meta: &FunctionMeta) -> (r: Vec<String>)
    requires
        forall|i: int| 0 <= i < meta.args@.len() ==> arg_writable(#[trigger] meta.args@[i]),
    ensures
        r@.map_values(|s: String| s@) == meta.args@.map_values(|a: (String, WitMeta)| arg_text(a)),
{
    let mut r: Vec<String> = Vec::new();
    let mut i: usize = 0;
    while i < meta.args.len()
        invariant
            i <= meta.args@.len(),
            forall|j: int| 0 <= j < meta.args@.len() ==> arg_writable(#[trigger] meta.args@[j]),
            r@.len() == i,
            forall|j: int| 0 <= j < i ==> (#[trigger] r@[j])@ == arg_text(meta.args@[j]),
        decreases meta.args@.len() - i,
    {
        let mut w = WitSerializer::new(String::new(), 0);
        assert(arg_writable(meta.args@[i as int]));
        let _ = w.write_kebab(meta.args[i].0.as_str());
        let _ = w.write_str(": ");
        let _ = w.wit_ref(&meta.args[i].1);
        r.push(w.writer);
        i = i + 1;
    }
    assert(r@.map_values(|s: String| s@) =~= meta.args@.map_values(
        |a: (String, WitMeta)| arg_text(a),
    ));
    r
}

/// Decides [`name_writable`].
fn name_is_writable(s: &str) -> (r: bool)
    ensures
        r == name_writable(s@),
{
    let chars = crate::text::chars_of(s);
    let mut i: usize = 0;
    while i < chars.len()
        invariant
            i <= chars@.len(),
            chars@ == s@,
            forall|j: int| 0 <= j < i ==> writable_char(#[trigger] s@[j]),
        decreases chars@.len() - i,
    {
        let c = chars[i];
        if !(is_uppercase(c) || (c as u32) % 256 < 128) {
            return false;
        }
        i = i + 1;
    }
    true
}

/// Decides [`ref_writable`].
fn ref_is_writable(wit: &WitMeta) -> (r: bool)
    ensures
        r == ref_writable(*wit),
    decreases *wit,
{
    match wit {
        WitMeta::Record(meta) => name_is_writable(meta.name.0.as_str()),
        WitMeta::Variant(meta) => name_is_writable(meta.name.0.as_str()),
        WitMeta::Enum(meta) => name_is_writable(meta.name.0.as_str()),
        WitMeta::FlagMeta(meta) => name_is_writable(meta.name.0.as_str()),
        WitMeta::Result(meta) => ref_is_writable(&meta.ok) && ref_is_writable(&meta.err),
        WitMeta::Option(inner) => ref_is_writable(inner),
        WitMeta::List(inner) => ref_is_writable(inner),
        WitMeta::Tuple(meta) => {
            let ghost items = meta.items@;
            let mut i: usize = 0;
            while i < meta.items.len()
                invariant
                    i <= items.len(),
                    items == meta.items@,
                    *wit == WitMeta::Tuple(*meta),
                    refs_writable(items.take(i as int)),
                decreases items.len() - i,
            {
                assert(items.take(i + 1).drop_last() =~= items.take(i as int));
                assert((*wit)->Tuple_0 == *meta);
                assert(decreases_to!(*wit => (*wit)->Tuple_0));
                assert(decreases_to!(*meta => meta.items));
                assert(decreases_to!(meta.items => meta.items@));
                assert(decreases_to!(meta.items@ => meta.items@[i as int]));
                if !ref_is_writable(&meta.items[i]) {
                    proof {
                        if refs_writable(items) {
                            lemma_refs_writable_prefix(items, i + 1);
                            lemma_refs_writable_index(items.take(i + 1), i as int);
                        }
                    }
                    return false;
                }
                i = i + 1;
            }
            assert(items.take(items.len() as int) =~= items);
            true
        },
        WitMeta::Primitive(_) => true,
    }
}

proof fn lemma_refs_writable_prefix(items: Seq<WitMeta>, n: int)
    requires
        0 <= n <= items.len(),
        refs_writable(items),
    ensures
        refs_writable(items.take(n)),
    decreases items.len(),
{
    if n < items.len() {
        assert(items.drop_last().take(n) =~= items.take(n));
        lemma_refs_writable_prefix(items.drop_last(), n);
    } else {
        assert(items.take(n) =~= items);
    }
}

/// Decides [`export_writable`]: whether `into_wit` can write the export.
#[verifier::loop_isolation(false)]
pub fn export_is_writable(e: &WitExport) -> (r: bool)
    ensures
        r == export_writable(*e),
{
    match e {
        WitExport::Record(meta) => {
            if !name_is_writable(meta.name.0.as_str()) {
                return false;
            }
            let mut i: usize = 0;
            while i < meta.fields.len()
                invariant
                    i <= meta.fields@.len(),
                    forall|j: int| 0 <= j < i ==> ref_writable(#[trigger] meta.fields@[j].1),
                decreases meta.fields@.len() - i,
            {
                if !ref_is_writable(&meta.fields[i].1) {
                    assert(!ref_writable(meta.fields@[i as int].1));
                    return false;
                }
                i = i + 1;
            }
            true
        },
        WitExport::Variant(meta) => {
            if !name_is_writable(meta.name.0.as_str()) {
                return false;
            }
            let mut i: usize = 0;
            while i < meta.fields.len()
                invariant
                    i <= meta.fields@.len(),
                    forall|j: int| 0 <= j < i ==> option_writable(#[trigger] meta.fields@[j]),
                decreases meta.fields@.len() - i,
            {
                let option = &meta.fields[i];
                if !name_is_writable(option.name.0.as_str()) {
                    assert(!option_writable(meta.fields@[i as int]));
                    return false;
                }
                let mut k: usize = 0;
                while k < option.fields.len()
                    invariant
                        k <= option.fields@.len(),
                        forall|j: int| 0 <= j < k ==> ref_writable(#[trigger] option.fields@[j]),
                    decreases option.fields@.len() - k,
                {
                    if !ref_is_writable(&option.fields[k]) {
                        assert(!option_writable(meta.fields@[i as int]));
                        return false;
                    }
                    k = k + 1;
                }
                i = i + 1;
            }
            true
        },
        WitExport::Enum(meta) => {
            if !name_is_writable(meta.name.0.as_str()) {
                return false;
            }
            let mut i: usize = 0;
            while i < meta.variants.len()
                invariant
                    i <= meta.variants@.len(),
                    forall|j: int| 0 <= j < i ==> name_writable(#[trigger] meta.variants@[j].0@),
                decreases meta.variants@.len() - i,
            {
                if !name_is_writable(meta.variants[i].0.as_str()) {
                    assert(!name_writable(meta.variants@[i as int].0@));
                    return false;
                }
                i = i + 1;
            }
            true
        },
        WitExport::Function(meta) => {
            if !name_is_writable(meta.name.0.as_str()) || !ref_is_writable(&meta.result) {
                return false;
            }
            let mut i: usize = 0;
            while i < meta.args.len()
                invariant
                    i <= meta.args@.len(),
                    forall|j: int| 0 <= j < i ==> arg_writable(#[trigger] meta.args@[j]),
                decreases meta.args@.len() - i,
            {
                if !name_is_writable(meta.args[i].0.as_str()) || !ref_is_writable(
                    &meta.args[i].1,
                ) {
                    assert(!arg_writable(meta.args@[i as int]));
                    return false;
                }
                i = i + 1;
            }
            true
        },
        WitExport::Flag(_) => false,
    }
}

/// Decides [`exports_writable`].
pub fn exports_are_writable(exports: &Vec<WitExport>) -> (r: bool)
    ensures
        r == exports_writable(exports@),
{
    let mut i: usize = 0;
    while i < exports.len()
        invariant
            i <= exports@.len(),
            forall|j: int| 0 <= j < i ==> export_writable(#[trigger] exports@[j]),
        decreases exports@.len() - i,
    {
        if !export_is_writable(&exports[i]) {
            assert(!export_writable(exports@[i as int]));
            return false;
        }
        i = i + 1;
    }
    true
}

/// [`into_wit`] where the export can be written, `None` where it cannot (a flag
/// set, or a name character that is not uppercase and whose low byte is not ASCII).
pub fn try_into_wit(meta: &WitExport) -> (r: Option<Res<String>>)
    ensures
        r is Some <==> export_writable(*meta),
        r matches Some(x) ==> (x matches Ok(s) && s@ == export_text(*meta, 0)),
{
    if export_is_writable(meta) {
        Some(into_wit(meta))
    } else {
        None
    }
}

/// [`export_wit_interface`] where every export can be written, `None` otherwise.
pub fn try_export_wit_interface(interface_name: &str, world_name: &str, exports: &Vec<WitExport>) -> (r:
    Option<Res<String>>)
    ensures
        r is Some <==> exports_writable(exports@),
        r matches Some(x) ==> (x matches Ok(s) && s@ == interface_text(
            interface_name@,
            world_name@,
            exports@,
        )),
{
    if exports_are_writable(exports) {
        Some(export_wit_interface(interface_name, world_name, exports))
    } else {
        None
    }
}

/// The WIT spelling of a primitive type.
pub fn primitive_wit(meta: &PrimitiveMeta) -> (r: &'static str)
    ensures
        r@ == primitive_text(*meta),
{
    match meta {
        PrimitiveMeta::S8 => "s8",
        PrimitiveMeta::S16 => "s16",
        PrimitiveMeta::S32 => "s32",
        PrimitiveMeta::S64 => "s64",
        PrimitiveMeta::U8 => "u8",
        PrimitiveMeta::U16 => "u16",
        PrimitiveMeta::U32 => "u32",
        PrimitiveMeta::U64 => "u64",
        PrimitiveMeta::F32 => "f32",
        PrimitiveMeta::F64 => "f64",
        PrimitiveMeta::Bool => "bool",
        PrimitiveMeta::Char => "char",
        PrimitiveMeta::String => "string",
    }
}

/// Writes one export as WIT at the outermost level.
pub fn into_wit(meta: &WitExport) -> (r: Res<String>)
    requires
        export_writable(*meta),
    ensures
        r matches Ok(s) && s@ == export_text(*meta, 0),
{
    let mut serializer = WitSerializer::new(String::new(), 0);
    let _ = serializer.into_wit(meta);
    Ok(serializer.writer)
}

/// Writes a WIT interface named `interface_name` holding the exports, and a
/// world named `world_name` that exports it.
pub fn export_wit_interface(interface_name: &str, world_name: &str, exports: &Vec<WitExport>) -> (r:
    Res<String>)
    requires
        exports_writable(exports@),
    ensures
        r matches Ok(s) && s@ == interface_text(interface_name@, world_name@, exports@),
{
    let mut serializer = WitSerializer::new(String::new(), 1);
    let mut i: usize = 0;
    while i < exports.len()
        invariant
            serializer.wf(),
            serializer.level == 1,
            i <= exports@.len(),
            exports_writable(exports@),
            serializer.writer@ == exports_text(exports@.take(i as int), 1),
        decreases exports@.len() - i,
    {
        assert(export_writable(exports@[i as int]));
        let _ = serializer.into_wit(&exports[i]);
        let _ = serializer.write_str("\n");
        assert(exports@.take(i + 1).drop_last() =~= exports@.take(i as int));
        i = i + 1;
    }
    assert(exports@.take(exports@.len() as int) =~= exports@);
    let mut out = string_of("interface ");
    out.append(interface_name);
    out.append(" {\n");
    out.append(serializer.writer.as_str());
    out.append("\n}\n\nworld ");
    out.append(world_name);
    out.append(" {\n   export ");
    out.append(interface_name);
    out.append(";\n}");
    Ok(out)
}

// ---------------------------------------------------------------------------
// Laws
// ---------------------------------------------------------------------------

proof fn lemma_kebab_from_plain(t: Seq<char>, at_start: bool, prev_upper: bool)
    requires
        kebab_plain(t),
    ensures
        kebab_from(t, at_start, prev_upper) == t,
    decreases t.len(),
{
    if t.len() > 0 {
        assert(!is_upper_char(t[0]) && t[0] != '_' && written_char(t[0]) == t[0]);
        lemma_kebab_from_plain(t.drop_first(), false, false);
        assert(seq![t[0]] + t.drop_first() =~= t);
    }
}

proof fn lemma_trim_start_plain(s: Seq<char>, c: char)
    requires
        forall|i: int| 0 <= i < s.len() ==> #[trigger] s[i] != c,
    ensures
        trim_start(s, c) == s,
{
}

proof fn lemma_trim_end_plain(s: Seq<char>, c: char)
    requires
        forall|i: int| 0 <= i < s.len() ==> #[trigger] s[i] != c,
    ensures
        trim_end(s, c) == s,
{
}

/// A name that is already kebab-case (no uppercase character, no underscore,
/// each character written as itself) is written unchanged.
pub proof fn law_kebab_keeps_kebab_names(s: Seq<char>)
    requires
        kebab_plain(s),
    ensures
        kebab(s) == s,
{
    lemma_trim_start_plain(s, '_');
    lemma_trim_end_plain(s, '_');
    lemma_kebab_from_plain(s, true, false);
}

proof fn lemma_trim_start_append(s: Seq<char>, t: Seq<char>, c: char)
    ensures
        (exists|i: int| 0 <= i < s.len() && s[i] != c) ==> trim_start(s + t, c) == trim_start(s, c)
            + t,
        (forall|i: int| 0 <= i < s.len() ==> s[i] == c) ==> trim_start(s + t, c) == trim_start(
            t,
            c,
        ) && trim_start(s, c) == Seq::<char>::empty(),
    decreases s.len(),
{
    if s.len() == 0 {
        assert(s + t =~= t);
    } else {
        assert((s + t)[0] == s[0]);
        assert((s + t).drop_first() =~= s.drop_first() + t);
        lemma_trim_start_append(s.drop_first(), t, c);
        if s[0] == c {
            if exists|i: int| 0 <= i < s.len() && s[i] != c {
                let i = choose|i: int| 0 <= i < s.len() && s[i] != c;
                assert(s.drop_first()[i - 1] == s[i]);
            }
            if forall|i: int| 0 <= i < s.len() ==> s[i] == c {
                assert forall|i: int| 0 <= i < s.drop_first().len() implies s.drop_first()[i]
                    == c by {
                    assert(s.drop_first()[i] == s[i + 1]);
                }
            }
        }
    }
}

/// Underscores around a name do not change how it is written.
pub proof fn law_kebab_ignores_outer_underscores(s: Seq<char>)
    ensures
        kebab(seq!['_'] + s) == kebab(s),
        kebab(s + seq!['_']) == kebab(s),
{
    let u = seq!['_'];
    assert((u + s)[0] == '_');
    assert((u + s).drop_first() =~= s);
    lemma_trim_start_append(s, u, '_');
    if exists|i: int| 0 <= i < s.len() && s[i] != '_' {
        let x = trim_start(s, '_');
        assert((x + u).last() == '_');
        assert((x + u).drop_last() =~= x);
    } else {
        assert(trim_start(u, '_') == trim_start(Seq::<char>::empty(), '_')) by {
            assert(u.drop_first() =~= Seq::<char>::empty());
        }
    }
}

/// Writing exports in two batches gives the concatenation of the two texts.
pub proof fn law_exports_text_concat(a: Seq<WitExport>, b: Seq<WitExport>, level: nat)
    ensures
        exports_text(a + b, level) == exports_text(a, level) + exports_text(b, level),
    decreases b.len(),
{
    if b.len() == 0 {
        assert(a + b =~= a);
    } else {
        assert((a + b).drop_last() =~= a + b.drop_last());
        assert((a + b).last() == b.last());
        law_exports_text_concat(a, b.drop_last(), level);
    }
}

/// No character of `x` is uppercase or `_`, and each is written as itself:
/// text that kebab-casing leaves as it is.
pub open spec fn kebab_plain(x: Seq<char>) -> bool {
    forall|i: int|
        0 <= i < x.len() ==> !is_upper_char(#[trigger] x[i]) && x[i] != '_' && written_char(x[i])
            == x[i]
}

/// What kebab-casing writes for `c` is plain text: the lowercase form of an
/// uppercase character, `-` for `_`, [`written_char`] for any other.
pub open spec fn char_writes_plain(c: char) -> bool {
    if is_upper_char(c) {
        kebab_plain(lower_chars(c))
    } else if c == '_' {
        true
    } else {
        kebab_plain(seq![written_char(c)])
    }
}

/// Every character of `s` is written as plain text.
pub open spec fn kebab_stable(s: Seq<char>) -> bool {
    forall|i: int| 0 <= i < s.len() ==> char_writes_plain(#[trigger] s[i])
}

proof fn lemma_plain_concat(a: Seq<char>, b: Seq<char>)
    requires
        kebab_plain(a),
        kebab_plain(b),
    ensures
        kebab_plain(a + b),
{
    assert forall|i: int| 0 <= i < (a + b).len() implies !is_upper_char(#[trigger] (a + b)[i])
        && (a + b)[i] != '_' && written_char((a + b)[i]) == (a + b)[i] by {
        if i < a.len() {
            assert((a + b)[i] == a[i]);
        } else {
            assert((a + b)[i] == b[i - a.len()]);
        }
    }
}

proof fn lemma_stable_trim(s: Seq<char>, c: char)
    requires
        kebab_stable(s),
    ensures
        kebab_stable(trim_start(s, c)),
        kebab_stable(trim_end(s, c)),
    decreases s.len(),
{
    if s.len() > 0 {
        let f = s.drop_first();
        let l = s.drop_last();
        assert forall|i: int| 0 <= i < f.len() implies char_writes_plain(#[trigger] f[i]) by {
            assert(f[i] == s[i + 1]);
        }
        assert forall|i: int| 0 <= i < l.len() implies char_writes_plain(#[trigger] l[i]) by {
            assert(l[i] == s[i]);
        }
        lemma_stable_trim(f, c);
        lemma_stable_trim(l, c);
    }
}

proof fn lemma_kebab_from_stable(t: Seq<char>, at_start: bool, prev_upper: bool)
    requires
        kebab_stable(t),
    ensures
        kebab_plain(kebab_from(t, at_start, prev_upper)),
    decreases t.len(),
{
    if t.len() > 0 {
        let c = t[0];
        let f = t.drop_first();
        assert(char_writes_plain(c));
        assert forall|i: int| 0 <= i < f.len() implies char_writes_plain(#[trigger] f[i]) by {
            assert(f[i] == t[i + 1]);
        }
        let dash = seq!['-'];
        assert(kebab_plain(dash)) by {
            assert(dash[0] == '-');
            assert(is_ascii_char('-'));
        }
        assert(kebab_plain(Seq::<char>::empty()));
        if is_upper_char(c) {
            lemma_kebab_from_stable(f, false, true);
            let head = if !at_start && !prev_upper {
                dash
            } else {
                Seq::empty()
            };
            lemma_plain_concat(head, lower_chars(c));
            lemma_plain_concat(head + lower_chars(c), kebab_from(f, false, true));
        } else if c == '_' {
            lemma_kebab_from_stable(f, false, false);
            lemma_plain_concat(dash, kebab_from(f, false, false));
        } else {
            lemma_kebab_from_stable(f, false, false);
            lemma_plain_concat(seq![written_char(c)], kebab_from(f, false, false));
        }
    }
}

/// Writing a name in kebab case twice gives what writing it once gives,
/// wherever each character of the name is written as plain text (on ASCII this
/// always holds: see [`law_kebab_is_idempotent_on_ascii`]). The written name is
/// then plain.
pub proof fn law_kebab_is_idempotent(s: Seq<char>)
    requires
        kebab_stable(s),
    ensures
        kebab_plain(kebab(s)),
        kebab(kebab(s)) == kebab(s),
{
    lemma_stable_trim(s, '_');
    lemma_stable_trim(trim_start(s, '_'), '_');
    lemma_kebab_from_stable(trim_end(trim_start(s, '_'), '_'), true, false);
    law_kebab_keeps_kebab_names(kebab(s));
}

proof fn lemma_ascii_concat(a: Seq<char>, b: Seq<char>)
    requires
        is_ascii_text(a),
        is_ascii_text(b),
    ensures
        is_ascii_text(a + b),
{
    assert forall|i: int| 0 <= i < (a + b).len() implies is_ascii_char(#[trigger] (a + b)[i]) by {
        if i < a.len() {
            assert((a + b)[i] == a[i]);
        } else {
            assert((a + b)[i] == b[i - a.len()]);
        }
    }
}

proof fn lemma_ascii_trim(s: Seq<char>, c: char)
    requires
        is_ascii_text(s),
    ensures
        is_ascii_text(trim_start(s, c)),
        is_ascii_text(trim_end(s, c)),
    decreases s.len(),
{
    if s.len() > 0 {
        let f = s.drop_first();
        let l = s.drop_last();
        assert forall|i: int| 0 <= i < f.len() implies is_ascii_char(#[trigger] f[i]) by {
            assert(f[i] == s[i + 1]);
        }
        assert forall|i: int| 0 <= i < l.len() implies is_ascii_char(#[trigger] l[i]) by {
            assert(l[i] == s[i]);
        }
        lemma_ascii_trim(f, c);
        lemma_ascii_trim(l, c);
    }
}

proof fn lemma_kebab_from_ascii(t: Seq<char>, at_start: bool, prev_upper: bool)
    requires
        is_ascii_text(t),
    ensures
        is_ascii_text(kebab_from(t, at_start, prev_upper)),
    decreases t.len(),
{
    if t.len() > 0 {
        let c = t[0];
        let f = t.drop_first();
        assert forall|i: int| 0 <= i < f.len() implies is_ascii_char(#[trigger] f[i]) by {
            assert(f[i] == t[i + 1]);
        }
        let dash = seq!['-'];
        assert(is_ascii_text(dash)) by {
            assert(dash[0] == '-');
        }
        assert(is_ascii_text(Seq::<char>::empty()));
        assert(is_ascii_char(c));
        if is_upper_char(c) {
            lemma_kebab_from_ascii(f, false, true);
            let head = if !at_start && !prev_upper {
                dash
            } else {
                Seq::empty()
            };
            let low = lower_chars(c);
            assert(is_ascii_text(low)) by {
                assert(low[0] == ascii_lower_char(c));
            }
            lemma_ascii_concat(head, low);
            lemma_ascii_concat(head + low, kebab_from(f, false, true));
        } else if c == '_' {
            lemma_kebab_from_ascii(f, false, false);
            lemma_ascii_concat(dash, kebab_from(f, false, false));
        } else {
            lemma_kebab_from_ascii(f, false, false);
            assert(is_ascii_text(seq![written_char(c)])) by {
                assert(seq![written_char(c)][0] == c);
            }
            lemma_ascii_concat(seq![written_char(c)], kebab_from(f, false, false));
        }
    }
}

/// Kebab-casing an ASCII name gives ASCII text with no uppercase letter and no
/// `_`, and kebab-casing that text again gives it back unchanged.
pub proof fn law_kebab_is_idempotent_on_ascii(s: Seq<char>)
    requires
        is_ascii_text(s),
    ensures
        is_ascii_text(kebab(s)),
        kebab_plain(kebab(s)),
        kebab(kebab(s)) == kebab(s),
{
    assert forall|i: int| 0 <= i < s.len() implies char_writes_plain(#[trigger] s[i]) by {
        let c = s[i];
        assert(is_ascii_char(c));
        if is_upper_char(c) {
            let low = lower_chars(c);
            assert(low[0] == ascii_lower_char(c));
            assert('a' <= ascii_lower_char(c) && ascii_lower_char(c) <= 'z');
            assert(kebab_plain(low));
        } else if c != '_' {
            let w = seq![written_char(c)];
            assert(w[0] == c);
            assert(kebab_plain(w));
        }
    }
    law_kebab_is_idempotent(s);
    lemma_ascii_trim(s, '_');
    lemma_ascii_trim(trim_start(s, '_'), '_');
    lemma_kebab_from_ascii(trim_end(trim_start(s, '_'), '_'), true, false);
}

/// Distinct primitives are written differently: no two WIT primitives share a
/// name, so writing one never yields another's (`u64` is never written `u32`).
pub proof fn law_primitive_texts_are_distinct(p: PrimitiveMeta, q: PrimitiveMeta)
    requires
        p != q,
    ensures
        primitive_text(p) != primitive_text(q),
{
    reveal_strlit("s8");
    reveal_strlit("s16");
    reveal_strlit("s32");
    reveal_strlit("s64");
    reveal_strlit("u8");
    reveal_strlit("u16");
    reveal_strlit("u32");
    reveal_strlit("u64");
    reveal_strlit("f32");
    reveal_strlit("f64");
    reveal_strlit("bool");
    reveal_strlit("char");
    reveal_strlit("string");
    assert("s8"@[0] == 's' && "s8"@[1] == '8');
    assert("s16"@[0] == 's' && "s16"@[1] == '1');
    assert("s32"@[0] == 's' && "s32"@[1] == '3');
    assert("s64"@[0] == 's' && "s64"@[1] == '6');
    assert("u8"@[0] == 'u' && "u8"@[1] == '8');
    assert("u16"@[0] == 'u' && "u16"@[1] == '1');
    assert("u32"@[0] == 'u' && "u32"@[1] == '3');
    assert("u64"@[0] == 'u' && "u64"@[1] == '6');
    assert("f32"@[0] == 'f' && "f32"@[1] == '3');
    assert("f64"@[0] == 'f' && "f64"@[1] == '6');
    assert("bool"@[0] == 'b' && "bool"@[1] == 'o');
    assert("char"@[0] == 'c' && "char"@[1] == 'h');
    assert("string"@[0] == 's' && "string"@[1] == 't');
    assert("s16"@[2] == '6');
    assert("s32"@[2] == '2');
    assert("s64"@[2] == '4');
    assert("u16"@[2] == '6');
    assert("u32"@[2] == '2');
    assert("u64"@[2] == '4');
    assert("f32"@[2] == '2');
    assert("f64"@[2] == '4');
    assert("bool"@[2] == 'o');
    assert("char"@[2] == 'a');
    assert("string"@[2] == 'r');
}

/// An integer primitive is written as its signedness, `s` or `u`, followed by
/// its width in bits: the texts of the 8-, 16-, 32- and 64-bit primitives of
/// each signedness differ only in the digits, and the widths grow in that order.
pub proof fn law_integer_primitive_texts_carry_their_width()
    ensures
        primitive_text(PrimitiveMeta::S8) == seq!['s'] + "8"@,
        primitive_text(PrimitiveMeta::S16) == seq!['s'] + "16"@,
        primitive_text(PrimitiveMeta::S32) == seq!['s'] + "32"@,
        primitive_text(PrimitiveMeta::S64) == seq!['s'] + "64"@,
        primitive_text(PrimitiveMeta::U8) == seq!['u'] + "8"@,
        primitive_text(PrimitiveMeta::U16) == seq!['u'] + "16"@,
        primitive_text(PrimitiveMeta::U32) == seq!['u'] + "32"@,
        primitive_text(PrimitiveMeta::U64) == seq!['u'] + "64"@,
{
    reveal_strlit("s8");
    reveal_strlit("s16");
    reveal_strlit("s32");
    reveal_strlit("s64");
    reveal_strlit("u8");
    reveal_strlit("u16");
    reveal_strlit("u32");
    reveal_strlit("u64");
    reveal_strlit("f32");
    reveal_strlit("f64");
    reveal_strlit("bool");
    reveal_strlit("char");
    reveal_strlit("string");
    reveal_strlit("8");
    reveal_strlit("16");
    reveal_strlit("32");
    reveal_strlit("64");
    assert(seq!['s'] + "8"@ =~= "s8"@);
    assert(seq!['s'] + "16"@ =~= "s16"@);
    assert(seq!['s'] + "32"@ =~= "s32"@);
    assert(seq!['s'] + "64"@ =~= "s64"@);
    assert(seq!['u'] + "8"@ =~= "u8"@);
    assert(seq!['u'] + "16"@ =~= "u16"@);
    assert(seq!['u'] + "32"@ =~= "u32"@);
    assert(seq!['u'] + "64"@ =~= "u64"@);
}

/// Type references joined by `, `, written one by one.
proof fn lemma_refs_text_joins(xs: Seq<WitMeta>)
    ensures
        refs_text(xs) == join(Seq::new(xs.len(), |j: int| wit_ref_text(xs[j])), ", "@),
    decreases xs.len(),
{
    let ys = Seq::new(xs.len(), |j: int| wit_ref_text(xs[j]));
    if xs.len() > 1 {
        lemma_refs_text_joins(xs.drop_last());
        assert(ys.drop_last() =~= Seq::new(
            xs.drop_last().len(),
            |j: int| wit_ref_text(xs.drop_last()[j]),
        ));
    }
}

/// Each export is written with every one of its members, in order, and
/// nothing else: a record with a `name: type` line per field, a variant with a
/// line per case (its payload types joined by `, ` in parentheses, if any), an
/// enum with a line per case, and a function with a `name: type` per parameter
/// and its result type.
pub proof fn law_exports_list_every_member(e: WitExport, level: nat)
    ensures
        match e {
            WitExport::Record(meta) => export_text(e, level) == indent_text(level) + "record "@
                + kebab(meta.name.0@) + " {"@ + "\n"@ + join(
                Seq::new(
                    meta.fields@.len(),
                    |i: int|
                        indent_text(level + 1) + (meta.fields@[i].0@ + ": "@ + wit_ref_text(
                            meta.fields@[i].1,
                        )),
                ),
                "\n"@,
            ) + "\n"@ + indent_text(level) + "}"@ + "\n"@,
            WitExport::Variant(meta) => export_text(e, level) == indent_text(level) + "variant "@
                + kebab(meta.name.0@) + " {"@ + "\n"@ + join(
                Seq::new(
                    meta.fields@.len(),
                    |i: int|
                        indent_text(level + 1) + (kebab(meta.fields@[i].name.0@) + if meta.fields@[i].fields@.len()
                            == 0 {
                            Seq::empty()
                        } else {
                            "("@ + join(
                                Seq::new(
                                    meta.fields@[i].fields@.len(),
                                    |j: int| wit_ref_text(meta.fields@[i].fields@[j]),
                                ),
                                ", "@,
                            ) + ")"@
                        }),
                ),
                ",\n"@,
            ) + "\n"@ + indent_text(level) + "}"@ + "\n"@,
            WitExport::Enum(meta) => export_text(e, level) == indent_text(level) + "enum "@ + kebab(
                meta.name.0@,
            ) + " {"@ + "\n"@ + join(
                Seq::new(
                    meta.variants@.len(),
                    |i: int| indent_text(level + 1) + kebab(meta.variants@[i].0@),
                ),
                ",\n"@,
            ) + "\n"@ + indent_text(level) + "}"@ + "\n"@,
            WitExport::Function(meta) => export_text(e, level) == indent_text(level) + kebab(
                meta.name.0@,
            ) + ": func("@ + join(
                Seq::new(
                    meta.args@.len(),
                    |i: int| kebab(meta.args@[i].0@) + ": "@ + wit_ref_text(meta.args@[i].1),
                ),
                ", "@,
            ) + ") -> "@ + wit_ref_text(*meta.result) + "\n"@,
            WitExport::Flag(_) => export_text(e, level) == Seq::<char>::empty(),
        },
{
    let pre = indent_text(level + 1);
    match e {
        WitExport::Record(meta) => {
            assert(meta.fields@.map_values(|f: (String, WitMeta)| field_text(f)).map_values(
                |s: Seq<char>| pre + s,
            ) =~= Seq::new(
                meta.fields@.len(),
                |i: int| pre + (meta.fields@[i].0@ + ": "@ + wit_ref_text(meta.fields@[i].1)),
            ));
        },
        WitExport::Variant(meta) => {
            assert forall|i: int| 0 <= i < meta.fields@.len() implies option_text(
                #[trigger] meta.fields@[i],
            ) == kebab(meta.fields@[i].name.0@) + if meta.fields@[i].fields@.len() == 0 {
                Seq::empty()
            } else {
                "("@ + join(
                    Seq::new(
                        meta.fields@[i].fields@.len(),
                        |j: int| wit_ref_text(meta.fields@[i].fields@[j]),
                    ),
                    ", "@,
                ) + ")"@
            } by {
                lemma_refs_text_joins(meta.fields@[i].fields@);
            }
            assert(meta.fields@.map_values(|o: VariantOption| option_text(o)).map_values(
                |s: Seq<char>| pre + s,
            ) =~= Seq::new(
                meta.fields@.len(),
                |i: int|
                    pre + (kebab(meta.fields@[i].name.0@) + if meta.fields@[i].fields@.len() == 0 {
                        Seq::empty()
                    } else {
                        "("@ + join(
                            Seq::new(
                                meta.fields@[i].fields@.len(),
                                |j: int| wit_ref_text(meta.fields@[i].fields@[j]),
                            ),
                            ", "@,
                        ) + ")"@
                    }),
            ));
        },
        WitExport::Enum(meta) => {
            assert(meta.variants@.map_values(|v: Ident| kebab(v.0@)).map_values(
                |s: Seq<char>| pre + s,
            ) =~= Seq::new(meta.variants@.len(), |i: int| pre + kebab(meta.variants@[i].0@)));
        },
        WitExport::Function(meta) => {
            assert(meta.args@.map_values(|a: (String, WitMeta)| arg_text(a)) =~= Seq::new(
                meta.args@.len(),
                |i: int| kebab(meta.args@[i].0@) + ": "@ + wit_ref_text(meta.args@[i].1),
            ));
        },
        WitExport::Flag(_) => {},
    }
}

} // verus!
