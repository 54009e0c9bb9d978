use vstd::prelude::*;

use crate::syntax::ast::{
    AstNodeIndex, ImplFunctionSignature, PlainLiteral, PointerAnnotation, StructStatement, TypeAnnotation, TypeKind, TypedDeclaration,
};
use crate::syntax::lexer::Token;
use crate::syntax::tokens::TokenType;
use crate::typing::literal_typing::{
    lemma_same_type_same_display, same_type, types_display_text, BuiltinType, FunctionType, PointerType, Type,
};
use crate::utils::text::{
    decimal, decimal_string, push_char, push_repeated, push_str, repeated, signed_decimal, signed_decimal_string,
};
use std::collections::HashMap;

verus! {

broadcast use vstd::std_specs::hash::group_hash_axioms;

/// `n` spaces.
pub open spec fn spaces(n: int) -> Seq<char> {
    repeated(' ', n as nat)
}

/// Each value followed by `glue`, one after the other.
pub open spec fn terminated(values: Seq<Seq<char>>, glue: Seq<char>) -> Seq<char>
    decreases values.len(),
{
    if values.len() == 0 {
        Seq::empty()
    } else {
        terminated(values.drop_last(), glue) + values.last() + glue
    }
}

/// The values with `glue` between each two of them.
pub open spec fn joined(values: Seq<Seq<char>>, glue: Seq<char>) -> Seq<char> {
    if values.len() == 0 {
        Seq::empty()
    } else {
        terminated(values.drop_last(), glue) + values.last()
    }
}

/// The characters of each string.
pub open spec fn texts(values: Seq<String>) -> Seq<Seq<char>> {
    values.map_values(|v: String| v@)
}

/// The characters of each string slice.
pub open spec fn str_texts(values: Seq<&str>) -> Seq<Seq<char>> {
    values.map_values(|v: &str| v@)
}

/// Extending a list by one value extends the text by that value and glue.
proof fn lemma_terminated_step(values: Seq<Seq<char>>, i: int, glue: Seq<char>)
    requires
        0 <= i < values.len(),
    ensures
        terminated(values.take(i + 1), glue) == terminated(values.take(i), glue) + values[i] + glue,
{
    assert(values.take(i + 1).drop_last() == values.take(i));
}

/// Builds C text line by line, indenting by the nesting level.
pub struct TranspileHelper {
    pub indent_size: usize,
    pub level: usize,
    pub result: String,
}

impl Default for TranspileHelper {
    fn default() -> (r: Self)
        ensures
            r.indent_size == 0,
            r.level == 0,
            r.result@ == Seq::<char>::empty(),
    {
        TranspileHelper { indent_size: 0, level: 0, result: String::new() }
    }
}

impl TranspileHelper {
    /// The number of spaces that start a line at the current level.
    pub open spec fn pad_width(self) -> int {
        self.level * self.indent_size
    }

    /// The number of spaces that start a line one level deeper.
    pub open spec fn indent_width(self) -> int {
        (self.level + 1) * self.indent_size
    }

    /// Whether the widths of both kinds of line start fit in a `usize`.
    pub open spec fn widths_fit(self) -> bool {
        self.level + 1 <= usize::MAX && self.indent_width() <= usize::MAX
    }

    /// A builder at the context's level, indenting by four spaces.
    pub fn from_context(context: &CTranspilerContext) -> (r: Self)
        ensures
            r.indent_size == 4,
            r.level == context.level,
            r.result@ == Seq::<char>::empty(),
    {
        TranspileHelper { indent_size: 4, level: context.level, result: String::new() }
    }

    /// Runs `block` one level deeper.
    pub fn block<T>(&mut self, block: T)
        where T: FnOnce(&mut Self)
        requires
            old(self).level < usize::MAX,
            forall|h: &mut Self| *h == (TranspileHelper { level: (old(self).level + 1) as usize, ..*old(self) })
                ==> #[trigger] block.requires((h,)),
            forall|h: &mut Self, u: ()| *h == (TranspileHelper { level: (old(self).level + 1) as usize, ..*old(self) })
                && #[trigger] block.ensures((h,), u) ==> final(h).level == h.level,
        ensures
            final(self).level == old(self).level,
            exists|h: &mut Self| #[trigger] block.ensures((h,), ())
                && *h == (TranspileHelper { level: (old(self).level + 1) as usize, ..*old(self) })
                && final(self).result == final(h).result && final(self).indent_size == final(h).indent_size,
    {
        self.level = self.level + 1;
        block(self);
        self.level = self.level - 1;
    }

    /// The spaces that start a line at the current level.
    pub fn pad_value(&self) -> (r: String)
        requires
            self.pad_width() <= usize::MAX,
        ensures
            r@ == spaces(self.pad_width()),
    {
        let mut r = String::new();
        push_repeated(&mut r, ' ', self.level * self.indent_size);
        r
    }

    /// The spaces that start a line one level deeper.
    pub fn indent_value(&self) -> (r: String)
        requires
            self.widths_fit(),
        ensures
            r@ == spaces(self.indent_width()),
    {
        let mut r = String::new();
        push_repeated(&mut r, ' ', (self.level + 1) * self.indent_size);
        r
    }

    /// Appends `value`.
    pub fn push(&mut self, value: &str)
        ensures
            final(self).result@ == old(self).result@ + value@,
            final(self).level == old(self).level,
            final(self).indent_size == old(self).indent_size,
    {
        push_str(&mut self.result, value);
    }

    /// Ends the line.
    pub fn ln(&mut self)
        ensures
            final(self).result@ == old(self).result@ + seq!['\n'],
            final(self).level == old(self).level,
            final(self).indent_size == old(self).indent_size,
    {
        push_char(&mut self.result, '\n');
    }

    /// Appends the spaces that start a line at the current level.
    pub fn pad(&mut self)
        requires
            old(self).pad_width() <= usize::MAX,
        ensures
            final(self).result@ == old(self).result@ + spaces(old(self).pad_width()),
            final(self).level == old(self).level,
            final(self).indent_size == old(self).indent_size,
    {
        let value = self.pad_value();
        push_str(&mut self.result, value.as_str());
    }

    /// Appends one space.
    pub fn space(&mut self)
        ensures
            final(self).result@ == old(self).result@ + seq![' '],
            final(self).level == old(self).level,
            final(self).indent_size == old(self).indent_size,
    {
        push_char(&mut self.result, ' ');
    }

    /// Appends the spaces that start a line one level deeper.
    pub fn indent(&mut self)
        requires
            old(self).widths_fit(),
        ensures
            final(self).result@ == old(self).result@ + spaces(old(self).indent_width()),
            final(self).level == old(self).level,
            final(self).indent_size == old(self).indent_size,
    {
        let value = self.indent_value();
        push_str(&mut self.result, value.as_str());
    }

    /// Starts a new line at the current level.
    pub fn wrap(&mut self)
        requires
            old(self).pad_width() <= usize::MAX,
        ensures
            final(self).result@ == old(self).result@ + seq!['\n'] + spaces(old(self).pad_width()),
            final(self).level == old(self).level,
            final(self).indent_size == old(self).indent_size,
    {
        push_char(&mut self.result, '\n');
        self.pad();
    }

    /// Starts a new line one level deeper.
    pub fn wrap_indent(&mut self)
        requires
            old(self).widths_fit(),
        ensures
            final(self).result@ == old(self).result@ + seq!['\n'] + spaces(old(self).indent_width()),
            final(self).level == old(self).level,
            final(self).indent_size == old(self).indent_size,
    {
        push_char(&mut self.result, '\n');
        self.indent();
    }

    /// Appends `value` and starts a new line at the current level.
    pub fn push_and_wrap(&mut self, value: &str)
        requires
            old(self).pad_width() <= usize::MAX,
        ensures
            final(self).result@ == old(self).result@ + value@ + seq!['\n'] + spaces(old(self).pad_width()),
            final(self).level == old(self).level,
            final(self).indent_size == old(self).indent_size,
    {
        self.push(value);
        self.wrap();
    }

    /// Appends `value` and starts a new line one level deeper.
    pub fn push_and_wrap_indent(&mut self, value: &str)
        requires
            old(self).widths_fit(),
        ensures
            final(self).result@ == old(self).result@ + value@ + seq!['\n'] + spaces(old(self).indent_width()),
            final(self).level == old(self).level,
            final(self).indent_size == old(self).indent_size,
    {
        self.push(value);
        self.wrap_indent();
    }

    /// Appends `value` and the spaces that start a line one level deeper.
    pub fn push_and_indent(&mut self, value: &str)
        requires
            old(self).widths_fit(),
        ensures
            final(self).result@ == old(self).result@ + value@ + spaces(old(self).indent_width()),
            final(self).level == old(self).level,
            final(self).indent_size == old(self).indent_size,
    {
        self.push(value);
        self.indent();
    }

    /// Appends each value on a line of its own at the current level.
    pub fn push_all_wrapped(&mut self, values: &[&str])
        requires
            old(self).pad_width() <= usize::MAX,
        ensures
            final(self).result@ == old(self).result@ + terminated(
                str_texts(values@),
                seq!['\n'] + spaces(old(self).pad_width()),
            ),
            final(self).level == old(self).level,
            final(self).indent_size == old(self).indent_size,
    {
        let ghost glue = seq!['\n'] + spaces(self.pad_width());
        let mut i: usize = 0;
        while i < values.len()
            invariant
                i <= values@.len(),
                self.level == old(self).level,
                self.indent_size == old(self).indent_size,
                self.pad_width() <= usize::MAX,
                glue == seq!['\n'] + spaces(self.pad_width()),
                self.result@ == old(self).result@ + terminated(str_texts(values@).take(i as int), glue),
            decreases values@.len() - i,
        {
            proof {
                lemma_terminated_step(str_texts(values@), i as int, glue);
            }
            self.push(values[i]);
            self.wrap();
            i = i + 1;
        }
        proof {
            assert(str_texts(values@).take(i as int) == str_texts(values@));
        }
    }

    /// Appends the values at the current level, each but the last followed
    /// by `separator` and a new line.
    pub fn push_all_padded(&mut self, values: &[String], separator: &str)
        requires
            old(self).pad_width() <= usize::MAX,
        ensures
            values@.len() == 0 ==> final(self).result@ == old(self).result@,
            values@.len() > 0 ==> final(self).result@ == old(self).result@ + spaces(old(self).pad_width())
                + joined(texts(values@), separator@ + seq!['\n'] + spaces(old(self).pad_width())),
            final(self).level == old(self).level,
            final(self).indent_size == old(self).indent_size,
    {
        if values.len() == 0 {
            return;
        }
        let ghost glue = separator@ + seq!['\n'] + spaces(self.pad_width());
        let ghost start = self.result@ + spaces(self.pad_width());
        self.pad();
        let mut i: usize = 0;
        while i < values.len() - 1
            invariant
                0 < values@.len(),
                i <= values@.len() - 1,
                self.level == old(self).level,
                self.indent_size == old(self).indent_size,
                self.pad_width() <= usize::MAX,
                glue == separator@ + seq!['\n'] + spaces(self.pad_width()),
                self.result@ == start + terminated(texts(values@).take(i as int), glue),
            decreases values@.len() - 1 - i,
        {
            proof {
                lemma_terminated_step(texts(values@), i as int, glue);
            }
            self.push(values[i].as_str());
            self.push(separator);
            self.wrap();
            i = i + 1;
        }
        proof {
            assert(texts(values@).take(i as int) == texts(values@).drop_last());
        }
        self.push(values[values.len() - 1].as_str());
    }

    /// Appends the values one level deeper, each but the last followed by
    /// `separator` and a new line.
    pub fn push_all_indented(&mut self, values: &[String], separator: &str)
        requires
            old(self).widths_fit(),
        ensures
            values@.len() == 0 ==> final(self).result@ == old(self).result@,
            values@.len() > 0 ==> final(self).result@ == old(self).result@ + spaces(old(self).indent_width())
                + joined(texts(values@), separator@ + seq!['\n'] + spaces(old(self).indent_width())),
            final(self).level == old(self).level,
            final(self).indent_size == old(self).indent_size,
    {
        if values.len() == 0 {
            return;
        }
        let ghost glue = separator@ + seq!['\n'] + spaces(self.indent_width());
        let ghost start = self.result@ + spaces(self.indent_width());
        self.indent();
        let mut i: usize = 0;
        while i < values.len() - 1
            invariant
                0 < values@.len(),
                i <= values@.len() - 1,
                self.level == old(self).level,
                self.indent_size == old(self).indent_size,
                self.widths_fit(),
                glue == separator@ + seq!['\n'] + spaces(self.indent_width()),
                self.result@ == start + terminated(texts(values@).take(i as int), glue),
            decreases values@.len() - 1 - i,
        {
            proof {
                lemma_terminated_step(texts(values@), i as int, glue);
            }
            self.push(values[i].as_str());
            self.push(separator);
            self.wrap_indent();
            i = i + 1;
        }
        proof {
            assert(texts(values@).take(i as int) == texts(values@).drop_last());
        }
        self.push(values[values.len() - 1].as_str());
    }
}

/// The lines that start every C file that the transpiler writes.
pub open spec fn main_c_prelude() -> Seq<char> {
    "#include <stdlib.h>\n"@ + "#include \"loom_runtime.h\"\n"@
}

/// What the transpiler has produced so far: the text of each node, and the
/// text of the header and of the whole file.
#[derive(Debug, Clone)]
pub struct CTranspilerContext {
    pub transpiled_stack: Vec<String>,
    pub transpile_stack_index: Vec<usize>,
    pub transpile_results: HashMap<usize, String>,
    pub header_result: String,
    pub result: String,
    pub level: usize,
}

impl CTranspilerContext {
    /// A context with no node transpiled yet, whose file starts with the
    /// prelude.
    pub fn new() -> (r: Self)
        ensures
            r.transpile_results@ == Map::<usize, String>::empty(),
            r.header_result@ == Seq::<char>::empty(),
            r.result@ == main_c_prelude(),
            r.level == 0,
    {
        CTranspilerContext {
            transpiled_stack: Vec::new(),
            transpile_stack_index: Vec::new(),
            transpile_results: HashMap::new(),
            header_result: String::new(),
            result: Self::generate_main_c_file(),
            level: 0,
        }
    }

    /// The prelude of the C file.
    pub fn generate_main_c_file() -> (r: String)
        ensures
            r@ == main_c_prelude(),
    {
        let mut result = String::new();
        push_str(&mut result, "#include <stdlib.h>\n");
        push_str(&mut result, "#include \"loom_runtime.h\"\n");
        result
    }

    /// Records the text of a node, in place of any it had.
    pub fn set_transpile_result(&mut self, idx: AstNodeIndex, result: String)
        ensures
            final(self).transpile_results@ == old(self).transpile_results@.insert(idx.0, result),
            final(self).result == old(self).result,
            final(self).header_result == old(self).header_result,
            final(self).level == old(self).level,
            final(self).transpiled_stack == old(self).transpiled_stack,
            final(self).transpile_stack_index == old(self).transpile_stack_index,
    {
        self.transpile_results.insert(idx.0, result);
    }

    /// The text recorded for a node, if any.
    pub fn get_transpile_result(&self, idx: &AstNodeIndex) -> (r: Option<&String>)
        ensures
            match r {
                Some(text) => self.transpile_results@.contains_key(idx.0) && *text == self.transpile_results@[idx.0],
                None => !self.transpile_results@.contains_key(idx.0),
            },
    {
        self.transpile_results.get(&idx.0)
    }
}

impl Default for CTranspilerContext {
    fn default() -> (r: Self)
        ensures
            r.transpile_results@ == Map::<usize, String>::empty(),
            r.header_result@ == Seq::<char>::empty(),
            r.result@ == main_c_prelude(),
            r.level == 0,
    {
        Self::new()
    }
}

/// Reading a node's text gives back the last text recorded for it; the
/// texts of the other nodes stay as they were.
pub proof fn lemma_transpile_result_read_after_set(
    before: Map<usize, String>,
    after: Map<usize, String>,
    idx: AstNodeIndex,
    text: String,
    other: AstNodeIndex,
)
    requires
        after == before.insert(idx.0, text),
    ensures
        after.contains_key(idx.0) && after[idx.0] == text,
        other.0 != idx.0 ==> (after.contains_key(other.0) == before.contains_key(other.0)
            && after[other.0] == before[other.0]),
{
}


// ---------------------------------------------------------------------------
// Types in C

/// What a pointer level adds after the type it points to: `*` for a
/// pointer through which the value may change, ` const *` otherwise.
pub open spec fn pointer_mark(mutable: bool) -> Seq<char> {
    if mutable { "*"@ } else { " const *"@ }
}

/// How the C file writes a type.
pub open spec fn c_type_text(t: BuiltinType) -> Seq<char>
    decreases t,
{
    match t {
        BuiltinType::Void => "void"@,
        BuiltinType::Null => "const void* const"@,
        BuiltinType::Bool => "bool"@,
        BuiltinType::I8 => "i8"@,
        BuiltinType::I16 => "i16"@,
        BuiltinType::I32 => "i32"@,
        BuiltinType::I64 => "i64"@,
        BuiltinType::U8 => "u8"@,
        BuiltinType::U16 => "u16"@,
        BuiltinType::U32 => "u32"@,
        BuiltinType::U64 => "u64"@,
        BuiltinType::F32 => "f32"@,
        BuiltinType::F64 => "f64"@,
        BuiltinType::Usize => "usize"@,
        BuiltinType::Char => "char"@,
        BuiltinType::String => "char*"@,
        BuiltinType::Pointer(p) => c_pointer_text(*p),
        BuiltinType::Function(f) => c_function_text(*f),
        BuiltinType::Struct(s) => s.name@,
    }
}

/// The C names of the types without parts: each type and how the C file
/// writes it.
pub open spec fn c_basic_type_names() -> Seq<(BuiltinType, Seq<char>)> {
    seq![
        (BuiltinType::Void, "void"@),
        (BuiltinType::Null, "const void* const"@),
        (BuiltinType::Bool, "bool"@),
        (BuiltinType::I8, "i8"@),
        (BuiltinType::I16, "i16"@),
        (BuiltinType::I32, "i32"@),
        (BuiltinType::I64, "i64"@),
        (BuiltinType::U8, "u8"@),
        (BuiltinType::U16, "u16"@),
        (BuiltinType::U32, "u32"@),
        (BuiltinType::U64, "u64"@),
        (BuiltinType::F32, "f32"@),
        (BuiltinType::F64, "f64"@),
        (BuiltinType::Usize, "usize"@),
        (BuiltinType::Char, "char"@),
        (BuiltinType::String, "char*"@),
    ]
}

/// A type without parts is written in C by its name in the list, and a
/// struct by its own name.
pub proof fn law_c_type_names(t: BuiltinType, i: int)
    requires
        0 <= i < c_basic_type_names().len(),
    ensures
        c_type_text(c_basic_type_names()[i].0) == c_basic_type_names()[i].1,
        t matches BuiltinType::Struct(s) ==> c_type_text(t) == s.name@,
{
}

/// How the C file writes a pointer type: the type at the bottom of the
/// chain of pointers, then a mark for each level, the innermost first.
pub open spec fn c_pointer_text(p: PointerType) -> Seq<char>
    decreases p,
{
    match p.inner_type {
        BuiltinType::Pointer(q) => c_pointer_text(*q) + pointer_mark(p.mutable),
        other => c_type_text(other) + pointer_mark(p.mutable),
    }
}

/// Function types are not written out in C: a comment names them instead.
pub open spec fn c_function_text(f: FunctionType) -> Seq<char> {
    "/* "@ + ("FunctionType["@ + types_display_text(f.arguments@) + "]"@) + " */"@
}

/// How the C file writes the type of a value: pointers as they are, other
/// types with `const ` before them unless the value may change.
pub open spec fn c_value_type_text(t: Type) -> Seq<char> {
    match t.ttype {
        BuiltinType::Pointer(p) => c_pointer_text(*p),
        other => (if t.mutable { ""@ } else { "const "@ }) + c_type_text(other),
    }
}

/// Whether each pointer level of the chain lets the value change, the
/// outermost first.
pub open spec fn pointer_chain(p: PointerType) -> Seq<bool>
    decreases p,
{
    match p.inner_type {
        BuiltinType::Pointer(q) => seq![p.mutable] + pointer_chain(*q),
        _ => seq![p.mutable],
    }
}

/// The type at the bottom of a chain of pointers.
pub open spec fn innermost_type(p: PointerType) -> BuiltinType
    decreases p,
{
    match p.inner_type {
        BuiltinType::Pointer(q) => innermost_type(*q),
        other => other,
    }
}

/// The marks of the levels, the last level's first.
pub open spec fn marks_reversed(levels: Seq<bool>) -> Seq<char>
    decreases levels.len(),
{
    if levels.len() == 0 {
        Seq::empty()
    } else {
        marks_reversed(levels.drop_first()) + pointer_mark(levels[0])
    }
}

/// A pointer's text is the innermost type's text and the marks of its
/// levels from the innermost out.
pub proof fn lemma_pointer_text_by_levels(p: PointerType)
    ensures
        c_pointer_text(p) == c_type_text(innermost_type(p)) + marks_reversed(pointer_chain(p)),
        !(innermost_type(p) is Pointer),
    decreases p,
{
    match p.inner_type {
        BuiltinType::Pointer(q) => {
            lemma_pointer_text_by_levels(*q);
            let chain = seq![p.mutable] + pointer_chain(*q);
            assert(chain.drop_first() == pointer_chain(*q));
            assert(chain[0] == p.mutable);
            assert(marks_reversed(chain) == marks_reversed(pointer_chain(*q)) + pointer_mark(p.mutable));
            assert(c_pointer_text(p) == c_pointer_text(*q) + pointer_mark(p.mutable));
            let t = c_type_text(innermost_type(*q));
            let m = marks_reversed(pointer_chain(*q));
            assert((t + m) + pointer_mark(p.mutable) =~= t + (m + pointer_mark(p.mutable)));
            assert(innermost_type(p) == innermost_type(*q));
            assert(pointer_chain(p) == chain);
            assert(marks_reversed(pointer_chain(p)) == m + pointer_mark(p.mutable));
        },
        _ => {
            assert(seq![p.mutable].drop_first() == Seq::<bool>::empty());
            assert(marks_reversed(Seq::<bool>::empty()) == Seq::<char>::empty());
            assert(marks_reversed(seq![p.mutable]) =~= pointer_mark(p.mutable));
        },
    }
}

/// Types that are the same are written the same way in C.
pub proof fn lemma_same_type_same_c_text(a: BuiltinType, b: BuiltinType)
    requires
        same_type(a, b),
    ensures
        c_type_text(a) == c_type_text(b),
    decreases a,
{
    match a {
        BuiltinType::Pointer(x) => {
            lemma_same_pointer_same_c_text(*x, *b->Pointer_0);
        },
        BuiltinType::Function(x) => {
            lemma_same_type_same_display(a, b);
        },
        _ => {},
    }
}

/// Pointer types that are the same are written the same way in C.
proof fn lemma_same_pointer_same_c_text(a: PointerType, b: PointerType)
    requires
        a.mutable == b.mutable,
        same_type(a.inner_type, b.inner_type),
    ensures
        c_pointer_text(a) == c_pointer_text(b),
    decreases a,
{
    match a.inner_type {
        BuiltinType::Pointer(x) => {
            lemma_same_pointer_same_c_text(*x, *b.inner_type->Pointer_0);
        },
        _ => {
            lemma_same_type_same_c_text(a.inner_type, b.inner_type);
        },
    }
}

/// Records whether each level of the chain lets the value change, the
/// outermost first, and gives the type at the bottom of the chain.
fn walk_pointer(pointer: &PointerType, result: &mut Vec<bool>) -> (r: BuiltinType)
    ensures
        final(result)@ == old(result)@ + pointer_chain(*pointer),
        same_type(r, innermost_type(*pointer)),
    decreases pointer,
{
    result.push(pointer.mutable);
    match &pointer.inner_type {
        BuiltinType::Pointer(inner_pointer) => {
            let r = walk_pointer(inner_pointer, result);
            proof {
                assert(final(result)@ == old(result)@ + (seq![pointer.mutable] + pointer_chain(**inner_pointer)));
            }
            r
        },
        other => {
            let r = other.clone();
            proof {
                assert(pointer_chain(*pointer) == seq![pointer.mutable]);
            }
            r
        },
    }
}

/// Writing a value of the library in C.
pub trait Transpiled {
    /// The text that `transpiled` gives.
    spec fn c_text(&self) -> Seq<char>;

    fn transpiled(&self) -> (r: String)
        ensures
            r@ == self.c_text(),
    ;
}

impl Transpiled for PointerType {
    open spec fn c_text(&self) -> Seq<char> {
        c_pointer_text(*self)
    }

    fn transpiled(&self) -> (r: String) {
        let mut stack: Vec<bool> = Vec::new();
        let innermost = walk_pointer(self, &mut stack);
        proof {
            lemma_pointer_text_by_levels(*self);
            lemma_same_type_same_c_text(innermost, innermost_type(*self));
            assert(stack@ == pointer_chain(*self));
        }
        let mut result = transpile_non_pointer(&innermost);
        let ghost base = result@;
        let mut i: usize = stack.len();
        while i > 0
            invariant
                i <= stack@.len(),
                result@ == base + marks_reversed(stack@.subrange(i as int, stack@.len() as int)),
            decreases i,
        {
            i = i - 1;
            proof {
                assert(stack@.subrange(i as int, stack@.len() as int).drop_first()
                    == stack@.subrange(i + 1, stack@.len() as int));
            }
            if stack[i] {
                push_str(&mut result, "*");
            } else {
                push_str(&mut result, " const *");
            }
        }
        proof {
            assert(stack@.subrange(0, stack@.len() as int) == stack@);
        }
        result
    }
}

/// Writes a type that is not a pointer.
fn transpile_non_pointer(t: &BuiltinType) -> (r: String)
    requires
        !(*t is Pointer),
    ensures
        r@ == c_type_text(*t),
{
    match t {
        BuiltinType::Void => "void".to_owned(),
        BuiltinType::Null => "const void* const".to_owned(),
        BuiltinType::Bool => "bool".to_owned(),
        BuiltinType::I8 => "i8".to_owned(),
        BuiltinType::I16 => "i16".to_owned(),
        BuiltinType::I32 => "i32".to_owned(),
        BuiltinType::I64 => "i64".to_owned(),
        BuiltinType::U8 => "u8".to_owned(),
        BuiltinType::U16 => "u16".to_owned(),
        BuiltinType::U32 => "u32".to_owned(),
        BuiltinType::U64 => "u64".to_owned(),
        BuiltinType::F32 => "f32".to_owned(),
        BuiltinType::F64 => "f64".to_owned(),
        BuiltinType::Usize => "usize".to_owned(),
        BuiltinType::Char => "char".to_owned(),
        BuiltinType::String => "char*".to_owned(),
        BuiltinType::Pointer(_) => String::new(),
        BuiltinType::Function(function) => function.transpiled(),
        BuiltinType::Struct(struct_type) => struct_type.name.clone(),
    }
}

impl Transpiled for FunctionType {
    open spec fn c_text(&self) -> Seq<char> {
        c_function_text(*self)
    }

    fn transpiled(&self) -> (r: String) {
        let mut result = String::new();
        push_str(&mut result, "/* ");
        let debug = self.debug_string();
        push_str(&mut result, debug.as_str());
        push_str(&mut result, " */");
        result
    }
}

impl Transpiled for BuiltinType {
    open spec fn c_text(&self) -> Seq<char> {
        c_type_text(*self)
    }

    fn transpiled(&self) -> (r: String) {
        match self {
            BuiltinType::Pointer(pointer) => pointer.transpiled(),
            _ => transpile_non_pointer(self),
        }
    }
}

impl Transpiled for Type {
    open spec fn c_text(&self) -> Seq<char> {
        c_value_type_text(*self)
    }

    fn transpiled(&self) -> (r: String) {
        match &self.ttype {
            BuiltinType::Pointer(pointer) => pointer.transpiled(),
            other => {
                let mut result = String::new();
                if self.mutable {
                    push_str(&mut result, "");
                } else {
                    push_str(&mut result, "const ");
                }
                let text = other.transpiled();
                push_str(&mut result, text.as_str());
                result
            },
        }
    }
}


// ---------------------------------------------------------------------------
// Declarations in C

/// How many pointer levels the annotation has.
pub open spec fn annotation_depth(p: PointerAnnotation) -> int
    decreases p,
{
    match *p.inner_type {
        TypeKind::Pointer(q) => 1 + annotation_depth(q),
        TypeKind::Simple(_) => 1,
    }
}

/// The simple type at the bottom of a pointer annotation.
pub open spec fn innermost_annotation(p: PointerAnnotation) -> crate::syntax::ast::Type
    decreases p,
{
    match *p.inner_type {
        TypeKind::Pointer(q) => innermost_annotation(q),
        TypeKind::Simple(t) => t,
    }
}

/// How the C file writes a pointer annotation: the literal of the type at
/// the bottom and a `*` for each level.
pub open spec fn pointer_annotation_text(p: PointerAnnotation) -> Seq<char> {
    innermost_annotation(p).name.literal@ + repeated('*', annotation_depth(p) as nat)
}

/// How the C file writes a type annotation: a simple type by its lexeme.
pub open spec fn type_annotation_text(a: TypeAnnotation) -> Seq<char> {
    match a.kind {
        TypeKind::Simple(t) => t.name.lexeme@,
        TypeKind::Pointer(p) => pointer_annotation_text(p),
    }
}

/// Whether the annotation's pointer levels can be counted in a `usize`.
pub open spec fn annotation_depth_fits(a: TypeAnnotation) -> bool {
    match a.kind {
        TypeKind::Simple(_) => true,
        TypeKind::Pointer(p) => annotation_depth(p) <= usize::MAX,
    }
}

/// Pointer annotations have at least one level.
proof fn lemma_annotation_depth_positive(p: PointerAnnotation)
    ensures
        annotation_depth(p) >= 1,
    decreases p,
{
    if let TypeKind::Pointer(q) = *p.inner_type {
        lemma_annotation_depth_positive(q);
    }
}

/// The pass that writes the program out in C.
pub struct CTranspilerSemantics {
    pub indent: usize,
    pub wrap: bool,
}

impl Default for CTranspilerSemantics {
    fn default() -> (r: Self)
        ensures
            r.indent == 0,
            !r.wrap,
    {
        CTranspilerSemantics { indent: 0, wrap: false }
    }
}

impl CTranspilerSemantics {
    /// A declaration such as a parameter: its type, a space and its name.
    pub fn transpile_typed_declaration(&self, typed_declaration: &TypedDeclaration) -> (r: String)
        requires
            annotation_depth_fits(typed_declaration.declared_type),
        ensures
            r@ == type_annotation_text(typed_declaration.declared_type) + " "@ + typed_declaration.name.literal@,
    {
        let mut result = self.transpile_type_annotation(&typed_declaration.declared_type);
        push_str(&mut result, " ");
        push_str(&mut result, typed_declaration.name.literal.as_str());
        result
    }

    /// A type annotation in C.
    pub fn transpile_type_annotation(&self, type_annotation: &TypeAnnotation) -> (r: String)
        requires
            annotation_depth_fits(*type_annotation),
        ensures
            r@ == type_annotation_text(*type_annotation),
    {
        let mut result = String::new();
        match &type_annotation.kind {
            TypeKind::Simple(t) => push_str(&mut result, t.name.lexeme.as_str()),
            TypeKind::Pointer(pa) => {
                let text = self.transpile_pointer_annotation(pa);
                push_str(&mut result, text.as_str());
            },
        }
        result
    }

    /// A pointer annotation in C: the type at the bottom and a `*` for each
    /// level.
    pub fn transpile_pointer_annotation(&self, pointer: &PointerAnnotation) -> (r: String)
        requires
            annotation_depth(*pointer) <= usize::MAX,
        ensures
            r@ == pointer_annotation_text(*pointer),
    {
        let mut result = String::new();
        let mut pointer_nesting: usize = 1;
        let mut current = pointer;
        loop
            invariant
                1 <= pointer_nesting,
                pointer_nesting - 1 + annotation_depth(*current) == annotation_depth(*pointer),
                annotation_depth(*pointer) <= usize::MAX,
                innermost_annotation(*current) == innermost_annotation(*pointer),
            ensures
                pointer_nesting == annotation_depth(*pointer),
                *current.inner_type is Simple,
                innermost_annotation(*current) == innermost_annotation(*pointer),
            decreases annotation_depth(*current),
        {
            proof {
                if *current.inner_type is Pointer {
                    lemma_annotation_depth_positive(current.inner_type->Pointer_0);
                }
            }
            match &*current.inner_type {
                TypeKind::Pointer(pa) => {
                    pointer_nesting = pointer_nesting + 1;
                    current = pa;
                },
                TypeKind::Simple(_) => {
                    break;
                },
            }
        }
        if let TypeKind::Simple(innermost) = &*current.inner_type {
            push_str(&mut result, innermost.name.literal.as_str());
        }
        push_repeated(&mut result, '*', pointer_nesting);
        result
    }

    /// As many spaces as the pass indents by.
    pub fn blank(&self) -> (r: String)
        ensures
            r@ == spaces(self.indent as int),
    {
        let mut r = String::new();
        push_repeated(&mut r, ' ', self.indent);
        r
    }
}

/// A builder that indents by nothing, at the outermost level.
pub fn empty_builder() -> (r: TranspileHelper)
    ensures
        r.indent_size == 0,
        r.level == 0,
        r.result@ == Seq::<char>::empty(),
{
    TranspileHelper::default()
}

/// Indenting at one level is padding at the next: two builders with the
/// same text and indent size, the second one level deeper, write the same
/// text when the first indents a list and the second pads it; the first
/// one's widths fitting makes the second one's fit.
pub proof fn lemma_indenting_is_padding_one_deeper(
    h1: TranspileHelper,
    h2: TranspileHelper,
    values: Seq<String>,
    separator: Seq<char>,
)
    requires
        h1.result@ == h2.result@,
        h1.indent_size == h2.indent_size,
        h2.level == h1.level + 1,
    ensures
        h1.indent_width() == h2.pad_width(),
        h1.widths_fit() ==> h2.pad_width() <= usize::MAX,
        h1.result@ + spaces(h1.indent_width()) + joined(texts(values), separator + seq!['\n'] + spaces(h1.indent_width()))
            == h2.result@ + spaces(h2.pad_width()) + joined(texts(values), separator + seq!['\n'] + spaces(h2.pad_width())),
{
}

/// A builder at the context's level.
pub fn builder(context: &CTranspilerContext) -> (r: TranspileHelper)
    ensures
        r.indent_size == 4,
        r.level == context.level,
        r.result@ == Seq::<char>::empty(),
{
    TranspileHelper::from_context(context)
}

/// A builder at the context's level that starts with `init`.
pub fn builder_with(init: String, context: &CTranspilerContext) -> (r: TranspileHelper)
    ensures
        r.indent_size == 4,
        r.level == context.level,
        r.result@ == init@,
{
    let mut builder = TranspileHelper::from_context(context);
    builder.push(init.as_str());
    builder
}


// ---------------------------------------------------------------------------
// Nodes in C
//
// Each step below writes one node of the syntax tree, given the texts already
// written for its children, and records the text for the node.

/// `after` records `text` for `node` and keeps the texts of the other nodes.
pub open spec fn recorded(before: Map<usize, String>, after: Map<usize, String>, node: AstNodeIndex, text: Seq<char>) -> bool {
    &&& after.dom() == before.dom().insert(node.0)
    &&& after[node.0]@ == text
    &&& forall|k: usize| k != node.0 && #[trigger] before.contains_key(k) ==> after[k] == before[k]
}

/// `after` is `before` with `text` recorded for `node`; the file, the
/// header and the level are as they were.
pub open spec fn records(before: &CTranspilerContext, after: &CTranspilerContext, node: AstNodeIndex, text: Seq<char>) -> bool {
    &&& recorded(before.transpile_results@, after.transpile_results@, node, text)
    &&& after.result == before.result
    &&& after.header_result == before.header_result
    &&& after.level == before.level
    &&& after.transpiled_stack == before.transpiled_stack
    &&& after.transpile_stack_index == before.transpile_stack_index
}

/// The C text of a unary operator.
pub open spec fn unary_operator_text(operator: TokenType) -> Option<Seq<char>> {
    match operator {
        TokenType::Plus => Some("+"@),
        TokenType::Minus => Some("-"@),
        TokenType::Star => Some("*"@),
        TokenType::BinaryAnd | TokenType::MutRef => Some("&"@),
        TokenType::LogicalNot => Some("!"@),
        TokenType::BinaryInvert => Some("~"@),
        TokenType::Increment => Some("++"@),
        TokenType::Decrement => Some("--"@),
        _ => None,
    }
}

/// How each unary operator is spelt in the source, which is also how C
/// spells it: the operator's token type and its text.
pub open spec fn unary_operator_spellings() -> Seq<(TokenType, Seq<char>)> {
    seq![
        (TokenType::Plus, seq!['+']),
        (TokenType::Minus, seq!['-']),
        (TokenType::Star, seq!['*']),
        (TokenType::BinaryAnd, seq!['&']),
        (TokenType::MutRef, seq!['&']),
        (TokenType::LogicalNot, seq!['!']),
        (TokenType::BinaryInvert, seq!['~']),
        (TokenType::Increment, seq!['+', '+']),
        (TokenType::Decrement, seq!['-', '-']),
    ]
}

/// The C text of a unary expression is the operator's own spelling followed
/// by the operand's text: whatever a step records for `op` applied to
/// `operand` is that spelling and that text. Only the operators listed have
/// a C text.
pub proof fn law_unary_text_is_spelling_then_operand(
    before: &CTranspilerContext,
    after: &CTranspilerContext,
    node: AstNodeIndex,
    op: TokenType,
    operand: Seq<char>,
)
    ensures
        forall|i: int| 0 <= i < unary_operator_spellings().len() && unary_operator_spellings()[i].0 == op ==> {
            &&& unary_operator_text(op) == Some(unary_operator_spellings()[i].1)
            &&& records(before, after, node, unary_operator_text(op)->0 + operand)
                ==> after.transpile_results@[node.0]@ == unary_operator_spellings()[i].1 + operand
        },
        (forall|i: int| 0 <= i < unary_operator_spellings().len() ==> unary_operator_spellings()[i].0 != op)
            ==> unary_operator_text(op) is None,
{
    reveal_strlit("+");
    reveal_strlit("-");
    reveal_strlit("*");
    reveal_strlit("&");
    reveal_strlit("!");
    reveal_strlit("~");
    reveal_strlit("++");
    reveal_strlit("--");
    let table = unary_operator_spellings();
    if forall|i: int| 0 <= i < table.len() ==> table[i].0 != op {
        assert(table[0].0 != op);
        assert(table[1].0 != op);
        assert(table[2].0 != op);
        assert(table[3].0 != op);
        assert(table[4].0 != op);
        assert(table[5].0 != op);
        assert(table[6].0 != op);
        assert(table[7].0 != op);
        assert(table[8].0 != op);
    }
}

impl CTranspilerSemantics {
    /// The text recorded for a node, if any.
    pub fn try_get_transpiled<'a>(&self, node: AstNodeIndex, context: &'a CTranspilerContext) -> (r: Option<&'a String>)
        ensures
            match r {
                Some(text) => context.transpile_results@.contains_key(node.0) && *text == context.transpile_results@[node.0],
                None => !context.transpile_results@.contains_key(node.0),
            },
    {
        context.get_transpile_result(&node)
    }

    /// The text recorded for a node that has one.
    pub fn get_transpiled_node<'a>(&self, node: AstNodeIndex, context: &'a CTranspilerContext) -> (r: &'a String)
        requires
            context.transpile_results@.contains_key(node.0),
        ensures
            *r == context.transpile_results@[node.0],
    {
        context.get_transpile_result(&node).unwrap()
    }

    /// The texts recorded for the nodes, in their order; each node has one.
    pub fn get_all_transpiled(&self, nodes: &[AstNodeIndex], context: &CTranspilerContext) -> (r: Vec<String>)
        requires
            forall|i: int| 0 <= i < nodes@.len() ==> context.transpile_results@.contains_key((#[trigger] nodes@[i]).0),
        ensures
            r@.len() == nodes@.len(),
            forall|i: int| 0 <= i < nodes@.len() ==> (#[trigger] r@[i])@ == context.transpile_results@[nodes@[i].0]@,
    {
        let mut texts: Vec<String> = Vec::new();
        let mut i: usize = 0;
        while i < nodes.len()
            invariant
                i <= nodes@.len(),
                texts@.len() == i,
                forall|j: int| 0 <= j < nodes@.len() ==> context.transpile_results@.contains_key((#[trigger] nodes@[j]).0),
                forall|j: int| 0 <= j < i ==> (#[trigger] texts@[j])@ == context.transpile_results@[nodes@[j].0]@,
            decreases nodes.len() - i,
        {
            let text = self.get_transpiled_node(nodes[i], context);
            texts.push(text.clone());
            i = i + 1;
        }
        texts
    }
}

impl CTranspilerSemantics {
    /// Records `text` for `node`.
    fn record(&self, node: AstNodeIndex, text: String, context: &mut CTranspilerContext)
        ensures
            records(old(context), final(context), node, text@),
    {
        let ghost t = text@;
        context.set_transpile_result(node, text);
    }

    /// `break`.
    pub fn visit_break_statement(&self, node: AstNodeIndex, context: &mut CTranspilerContext)
        ensures
            records(old(context), final(context), node, "break;"@),
    {
        self.record(node, "break;".to_owned(), context);
    }

    /// `continue`.
    pub fn visit_continue_statement(&self, node: AstNodeIndex, context: &mut CTranspilerContext)
        ensures
            records(old(context), final(context), node, "continue;"@),
    {
        self.record(node, "continue;".to_owned(), context);
    }

    /// `self`.
    pub fn visit_self(&self, node: AstNodeIndex, context: &mut CTranspilerContext)
        ensures
            records(old(context), final(context), node, "self"@),
    {
        self.record(node, "self".to_owned(), context);
    }

    /// A name, written as its literal.
    pub fn visit_identifier(&self, node: AstNodeIndex, name: &Token, context: &mut CTranspilerContext)
        ensures
            records(old(context), final(context), node, name.literal@),
    {
        self.record(node, name.literal.clone(), context);
    }

    /// `object.name`.
    pub fn visit_dot_access(&self, node: AstNodeIndex, object: &str, name: &Token, context: &mut CTranspilerContext)
        ensures
            records(old(context), final(context), node, object@ + "."@ + name.lexeme@),
    {
        let mut result = String::new();
        push_str(&mut result, object);
        push_str(&mut result, ".");
        push_str(&mut result, name.lexeme.as_str());
        self.record(node, result, context);
    }

    /// `pointer->name`.
    pub fn visit_arrow_access(&self, node: AstNodeIndex, pointer: &str, name: &Token, context: &mut CTranspilerContext)
        ensures
            records(old(context), final(context), node, pointer@ + "->"@ + name.lexeme@),
    {
        let mut result = String::new();
        push_str(&mut result, pointer);
        push_str(&mut result, "->");
        push_str(&mut result, name.lexeme.as_str());
        self.record(node, result, context);
    }

    /// `callee(arguments)`, the arguments separated by `, `.
    pub fn visit_call(&self, node: AstNodeIndex, callee: &str, arguments: &Vec<String>, context: &mut CTranspilerContext)
        ensures
            records(old(context), final(context), node, callee@ + "("@ + joined(texts(arguments@), ", "@) + ")"@),
    {
        let mut result = String::new();
        push_str(&mut result, callee);
        push_char(&mut result, '(');
        let args = join_texts(arguments, ", ");
        push_str(&mut result, args.as_str());
        push_char(&mut result, ')');
        proof {
            assert(result@ =~= callee@ + "("@ + joined(texts(arguments@), ", "@) + ")"@) by {
                assert(seq!['('] == "("@) by { reveal_strlit("("); }
                assert(seq![')'] == ")"@) by { reveal_strlit(")"); }
            }
        }
        self.record(node, result, context);
    }

    /// A unary operator before its operand.
    pub fn visit_unary(&self, node: AstNodeIndex, operator: &Token, expression: &str, context: &mut CTranspilerContext)
        requires
            unary_operator_text(operator.token_type) is Some,
        ensures
            records(old(context), final(context), node, unary_operator_text(operator.token_type)->0 + expression@),
    {
        let mut result = match operator.token_type {
            TokenType::Plus => "+".to_owned(),
            TokenType::Minus => "-".to_owned(),
            TokenType::Star => "*".to_owned(),
            TokenType::BinaryAnd | TokenType::MutRef => "&".to_owned(),
            TokenType::LogicalNot => "!".to_owned(),
            TokenType::BinaryInvert => "~".to_owned(),
            TokenType::Increment => "++".to_owned(),
            _ => "--".to_owned(),
        };
        push_str(&mut result, expression);
        self.record(node, result, context);
    }

    /// `(type)(left)`.
    pub fn visit_cast(&self, node: AstNodeIndex, target_type: &TypeAnnotation, left: &str, context: &mut CTranspilerContext)
        requires
            annotation_depth_fits(*target_type),
        ensures
            records(old(context), final(context), node, "("@ + type_annotation_text(*target_type) + ")("@ + left@ + ")"@),
    {
        let type_annotation = self.transpile_type_annotation(target_type);
        let mut result = String::new();
        push_str(&mut result, "(");
        push_str(&mut result, type_annotation.as_str());
        push_str(&mut result, ")(");
        push_str(&mut result, left);
        push_str(&mut result, ")");
        self.record(node, result, context);
    }

    /// `left op right`.
    pub fn visit_binary(&self, node: AstNodeIndex, left: &str, operator: &Token, right: &str, context: &mut CTranspilerContext)
        ensures
            records(old(context), final(context), node, left@ + " "@ + operator.lexeme@ + " "@ + right@),
    {
        let mut result = String::new();
        push_str(&mut result, left);
        push_str(&mut result, " ");
        push_str(&mut result, operator.lexeme.as_str());
        push_str(&mut result, " ");
        push_str(&mut result, right);
        self.record(node, result, context);
    }

    /// `lhs op= rhs`.
    pub fn visit_inplace_assignment(&self, node: AstNodeIndex, lhs: &str, operator: &Token, rhs: &str, context: &mut CTranspilerContext)
        ensures
            records(old(context), final(context), node, lhs@ + " "@ + operator.lexeme@ + " "@ + rhs@),
    {
        self.visit_binary(node, lhs, operator, rhs, context);
    }

    /// `lhs = rhs`.
    pub fn visit_assignment(&self, node: AstNodeIndex, lhs: &str, rhs: &str, context: &mut CTranspilerContext)
        ensures
            records(old(context), final(context), node, lhs@ + " = "@ + rhs@),
    {
        let mut result = String::new();
        push_str(&mut result, lhs);
        push_str(&mut result, " = ");
        push_str(&mut result, rhs);
        self.record(node, result, context);
    }

    /// `(expression)`.
    pub fn visit_grouping(&self, node: AstNodeIndex, expression: &str, context: &mut CTranspilerContext)
        ensures
            records(old(context), final(context), node, "("@ + expression@ + ")"@),
    {
        let mut result = String::new();
        push_str(&mut result, "(");
        push_str(&mut result, expression);
        push_str(&mut result, ")");
        self.record(node, result, context);
    }

    /// An expression, in parentheses when the pass wraps expressions.
    pub fn visit_expression(&self, node: AstNodeIndex, expression: &str, context: &mut CTranspilerContext)
        ensures
            records(old(context), final(context), node,
                if self.wrap { "("@ + expression@ + ")"@ } else { expression@ }),
    {
        let mut result = String::new();
        if self.wrap {
            push_str(&mut result, "(");
        }
        push_str(&mut result, expression);
        if self.wrap {
            push_str(&mut result, ")");
        }
        self.record(node, result, context);
    }

    /// An expression used as a statement: the expression and `;`.
    pub fn visit_expression_statement(&self, node: AstNodeIndex, expression: &str, context: &mut CTranspilerContext)
        ensures
            records(old(context), final(context), node, expression@ + ";"@),
    {
        let mut result = String::new();
        push_str(&mut result, expression);
        push_str(&mut result, ";");
        self.record(node, result, context);
    }

    /// `return`, with the returned expression if there is one.
    pub fn visit_return_statement(&self, node: AstNodeIndex, expression: Option<&str>, context: &mut CTranspilerContext)
        ensures
            records(old(context), final(context), node, match expression {
                Some(e) => "return"@ + " "@ + e@ + ";"@,
                None => "return"@ + ";"@,
            }),
    {
        let mut result = String::new();
        push_str(&mut result, "return");
        match expression {
            Some(e) => {
                push_str(&mut result, " ");
                push_str(&mut result, e);
            },
            None => {},
        }
        push_str(&mut result, ";");
        self.record(node, result, context);
    }

    /// Appends the text of a top-level statement, and a new line, to the file.
    pub fn visit_next(&self, transpiled: &str, context: &mut CTranspilerContext)
        ensures
            final(context).result@ == old(context).result@ + transpiled@ + "\n"@,
            final(context).transpile_results == old(context).transpile_results,
            final(context).header_result == old(context).header_result,
            final(context).level == old(context).level,
    {
        push_str(&mut context.result, transpiled);
        push_str(&mut context.result, "\n");
    }
}

/// The texts joined by `glue`.
fn join_texts(values: &Vec<String>, glue: &str) -> (r: String)
    ensures
        r@ == joined(texts(values@), glue@),
{
    let mut result = String::new();
    let mut i: usize = 0;
    while i < values.len()
        invariant
            i <= values@.len(),
            i > 0 ==> result@ == terminated(texts(values@).take(i - 1), glue@) + texts(values@)[i - 1],
            i == 0 ==> result@ == Seq::<char>::empty(),
        decreases values@.len() - i,
    {
        let ghost before = result@;
        if i > 0 {
            push_str(&mut result, glue);
            proof {
                lemma_terminated_step(texts(values@), i - 1, glue@);
            }
        }
        push_str(&mut result, values[i].as_str());
        proof {
            if i == 0 {
                assert(texts(values@).take(0) == Seq::<Seq<char>>::empty());
                assert(result@ =~= terminated(texts(values@).take(0), glue@) + texts(values@)[0]);
            } else {
                assert(result@ =~= terminated(texts(values@).take(i as int), glue@) + texts(values@)[i as int]);
            }
        }
        i = i + 1;
    }
    proof {
        if values@.len() > 0 {
            assert(texts(values@).take(values@.len() - 1) == texts(values@).drop_last());
            assert(texts(values@).last() == texts(values@)[values@.len() - 1]);
        }
    }
    result
}


/// The values at `width` spaces, each but the last followed by `separator`
/// and a new line at the same width: what `push_all_padded` writes.
pub open spec fn padded_text(values: Seq<Seq<char>>, separator: Seq<char>, width: int) -> Seq<char> {
    if values.len() == 0 {
        Seq::empty()
    } else {
        spaces(width) + joined(values, separator + "\n"@ + spaces(width))
    }
}

/// Whether a builder at `level` can open one more level.
pub open spec fn levels_fit(level: int) -> bool {
    level < usize::MAX && (level + 1) * 4 <= usize::MAX
}

/// The parameters of a function, each as its type in C, a space and its
/// name, as many as there are both names and types.
pub open spec fn parameter_texts(arguments: Seq<TypedDeclaration>, types: Seq<BuiltinType>) -> Seq<Seq<char>> {
    let n = if arguments.len() < types.len() { arguments.len() } else { types.len() };
    Seq::new(n, |i: int| c_type_text(types[i]) + " "@ + arguments[i].name.lexeme@)
}

/// A function's body in C after its header: on lines one level deeper in
/// braces, or `{}` and a new line when it is empty.
pub open spec fn body_text(body: Seq<Seq<char>>, level: int) -> Seq<char> {
    if body.len() > 0 {
        " "@ + "{\n"@ + padded_text(body, ""@, (level + 1) * 4) + "\n"@ + spaces(level * 4) + "}"@
    } else {
        "{}\n"@
    }
}

/// The parameter list of a function: on lines one level deeper in
/// parentheses, or `()` when the function type has no arguments.
pub open spec fn parameter_list_text(parameters: Seq<Seq<char>>, has_arguments: bool, level: int) -> Seq<char> {
    if has_arguments {
        "(\n"@ + padded_text(parameters, ","@, (level + 1) * 4) + "\n"@ + spaces(level * 4) + ")"@
    } else {
        "()"@
    }
}

/// Builds the parameter texts.
fn build_parameters(arguments: &Vec<TypedDeclaration>, types: &Vec<BuiltinType>, result: &mut Vec<String>)
    ensures
        texts(final(result)@) == texts(old(result)@) + parameter_texts(arguments@, types@),
{
    let n = if arguments.len() < types.len() { arguments.len() } else { types.len() };
    let mut i: usize = 0;
    while i < n
        invariant
            n == (if arguments@.len() < types@.len() { arguments@.len() } else { types@.len() }),
            i <= n,
            texts(result@) == texts(old(result)@) + parameter_texts(arguments@, types@).take(i as int),
        decreases n - i,
    {
        let mut parameter = types[i].transpiled();
        push_str(&mut parameter, " ");
        push_str(&mut parameter, arguments[i].name.lexeme.as_str());
        let ghost before = result@;
        result.push(parameter);
        proof {
            assert(texts(result@) =~= texts(before).push(parameter@));
            assert(parameter_texts(arguments@, types@).take(i + 1) =~= parameter_texts(arguments@, types@).take(i as int).push(parameter@));
        }
        i = i + 1;
    }
    proof {
        assert(parameter_texts(arguments@, types@).take(n as int) =~= parameter_texts(arguments@, types@));
    }
}

impl CTranspilerSemantics {
    /// `let`: at the current level, the variable's type in C, its name, the
    /// initializer if there is one, and `;`.
    pub fn visit_let_statement(
        &self,
        node: AstNodeIndex,
        variable_type: &Type,
        name: &Token,
        initializer: Option<&str>,
        context: &mut CTranspilerContext,
    )
        requires
            old(context).level * 4 <= usize::MAX,
        ensures
            records(old(context), final(context), node,
                spaces(old(context).level * 4) + c_value_type_text(*variable_type) + " "@ + name.lexeme@
                    + (match initializer { Some(i) => " = "@ + i@, None => Seq::empty() }) + ";"@),
    {
        let mut result = builder(context);
        result.pad();
        let type_text = variable_type.transpiled();
        result.push(type_text.as_str());
        result.space();
        result.push(name.lexeme.as_str());
        match initializer {
            Some(i) => {
                result.push(" = ");
                result.push(i);
            },
            None => {},
        }
        result.push(";");
        proof {
            assert(seq![' '] == " "@) by { reveal_strlit(" "); }
            let expected = spaces(context.level * 4) + c_value_type_text(*variable_type) + " "@ + name.lexeme@
                + (match initializer { Some(i) => " = "@ + i@, None => Seq::empty() }) + ";"@;
            assert(result.result@ =~= expected);
        }
        self.record(node, result.result, context);
    }

    /// `while`: at the current level, the condition, then the body one level
    /// deeper.
    pub fn visit_while_statement(&self, node: AstNodeIndex, condition: &str, body: &Vec<String>, context: &mut CTranspilerContext)
        requires
            levels_fit(old(context).level as int),
        ensures
            ({
                let level = old(context).level as int;
                records(old(context), final(context), node,
                    spaces(level * 4) + "while ("@ + condition@ + ") {"@ + "\n"@ + spaces((level + 1) * 4)
                        + padded_text(texts(body@), ""@, (level + 1) * 4) + "\n"@ + spaces((level + 1) * 4) + "}"@)
            }),
    {
        let mut result = builder(context);
        result.pad();
        result.push("while (");
        result.push(condition);
        result.push(") {");
        result.wrap_indent();
        result.level = result.level + 1;
        result.push_all_padded(body.as_slice(), "");
        result.wrap();
        result.level = result.level - 1;
        result.push("}");
        proof {
            assert(seq!['\n'] == "\n"@) by { reveal_strlit("\n"); }
            assert(""@ == Seq::<char>::empty()) by { reveal_strlit(""); }
            let level = context.level as int;
            assert(result.result@ =~= spaces(level * 4) + "while ("@ + condition@ + ") {"@ + "\n"@ + spaces((level + 1) * 4)
                + padded_text(texts(body@), ""@, (level + 1) * 4) + "\n"@ + spaces((level + 1) * 4) + "}"@);
        }
        self.record(node, result.result, context);
    }
}


/// A branch's body in C: nothing when it is empty, otherwise its statements
/// one level deeper, each on its own line.
pub open spec fn branch_text(branch: Seq<Seq<char>>, level: int) -> Seq<char> {
    if branch.len() > 0 {
        "\n"@ + spaces((level + 1) * 4) + padded_text(branch, "\n"@, (level + 1) * 4) + "\n"@ + spaces((level + 1) * 4)
    } else {
        Seq::empty()
    }
}

/// A field of a struct in C: its type, its name and `;`.
pub open spec fn field_texts(fields: Seq<TypedDeclaration>, types: Seq<BuiltinType>) -> Seq<Seq<char>> {
    Seq::new(fields.len(), |i: int| c_type_text(types[i]) + " "@ + fields[i].name.literal@ + ";"@)
}

/// The field initializers of a struct initializer: `.name = value`.
pub open spec fn initializer_texts(fields: Seq<(Token, String)>) -> Seq<Seq<char>> {
    Seq::new(fields.len(), |i: int| "."@ + fields[i].0.literal@ + " = "@ + fields[i].1@)
}

impl CTranspilerSemantics {
    /// Writes a branch's statements one level deeper, as [`branch_text`] says.
    fn push_branch(&self, result: &mut TranspileHelper, branch: &Vec<String>)
        requires
            levels_fit(old(result).level as int),
            old(result).indent_size == 4,
        ensures
            final(result).result@ == old(result).result@ + branch_text(texts(branch@), old(result).level as int),
            final(result).level == old(result).level,
            final(result).indent_size == 4,
    {
        if branch.len() > 0 {
            let ghost start = result.result@;
            result.wrap_indent();
            result.level = result.level + 1;
            result.push_all_padded(branch.as_slice(), "\n");
            result.wrap();
            result.level = result.level - 1;
            proof {
                assert(seq!['\n'] == "\n"@) by { reveal_strlit("\n"); }
                let level = result.level as int;
                assert(result.result@ =~= start + branch_text(texts(branch@), level));
            }
        } else {
            proof {
                assert(result.result@ =~= old(result).result@ + branch_text(texts(branch@), result.level as int));
            }
        }
    }

    /// `if`: at the current level, the condition and the then branch, and the
    /// else branch when there is one.
    pub fn visit_if_else_statement(
        &self,
        node: AstNodeIndex,
        condition: &str,
        then_branch: &Vec<String>,
        else_branch: Option<&Vec<String>>,
        context: &mut CTranspilerContext,
    )
        requires
            levels_fit(old(context).level as int),
        ensures
            ({
                let level = old(context).level as int;
                records(old(context), final(context), node,
                    spaces(level * 4) + "if ("@ + condition@ + ") {"@ + branch_text(texts(then_branch@), level) + "}"@
                        + match else_branch {
                            Some(e) => " else {"@ + branch_text(texts(e@), level) + "}\n"@,
                            None => Seq::empty(),
                        })
            }),
    {
        let mut result = builder(context);
        result.pad();
        result.push("if (");
        result.push(condition);
        result.push(") {");
        self.push_branch(&mut result, then_branch);
        result.push("}");
        match else_branch {
            Some(e) => {
                result.push(" else {");
                self.push_branch(&mut result, e);
                result.push("}\n");
            },
            None => {},
        }
        proof {
            let level = context.level as int;
            assert(result.result@ =~= spaces(level * 4) + "if ("@ + condition@ + ") {"@ + branch_text(texts(then_branch@), level) + "}"@
                + match else_branch {
                    Some(e) => " else {"@ + branch_text(texts(e@), level) + "}\n"@,
                    None => Seq::empty(),
                });
        }
        self.record(node, result.result, context);
    }

    /// `struct`: declares the struct's type in the header, and writes its
    /// fields, with the types that the typing pass found, one level deeper.
    pub fn visit_struct_statement(
        &self,
        node: AstNodeIndex,
        struct_statement: &StructStatement,
        field_types: &Vec<BuiltinType>,
        context: &mut CTranspilerContext,
    )
        requires
            levels_fit(old(context).level as int),
            field_types@.len() == struct_statement.fields@.len(),
        ensures
            ({
                let level = old(context).level as int;
                let name = struct_statement.name.literal@;
                let fields = field_texts(struct_statement.fields@, field_types@);
                &&& recorded(old(context).transpile_results@, final(context).transpile_results@, node,
                    spaces(level * 4) + "struct "@ + name + " {"@ + "\n"@
                        + (if fields.len() > 0 { padded_text(fields, "\n"@, (level + 1) * 4) + "\n"@ + spaces(level * 4) } else { Seq::empty() })
                        + "}\n"@)
                &&& final(context).header_result@ == old(context).header_result@ + "typedef struct "@ + name + " "@ + name + ";\n"@
                &&& final(context).result == old(context).result
                &&& final(context).level == old(context).level
            }),
    {
        let name = struct_statement.name.literal.as_str();
        push_str(&mut context.header_result, "typedef struct ");
        push_str(&mut context.header_result, name);
        push_str(&mut context.header_result, " ");
        push_str(&mut context.header_result, name);
        push_str(&mut context.header_result, ";\n");

        let mut fields: Vec<String> = Vec::new();
        let mut i: usize = 0;
        while i < struct_statement.fields.len()
            invariant
                i <= struct_statement.fields@.len(),
                field_types@.len() == struct_statement.fields@.len(),
                texts(fields@) == field_texts(struct_statement.fields@, field_types@).take(i as int),
            decreases struct_statement.fields@.len() - i,
        {
            let mut field = field_types[i].transpiled();
            push_str(&mut field, " ");
            push_str(&mut field, struct_statement.fields[i].name.literal.as_str());
            push_str(&mut field, ";");
            let ghost before = fields@;
            fields.push(field);
            proof {
                assert(texts(fields@) =~= texts(before).push(field@));
                assert(field_texts(struct_statement.fields@, field_types@).take(i + 1)
                    =~= field_texts(struct_statement.fields@, field_types@).take(i as int).push(field@));
            }
            i = i + 1;
        }
        proof {
            assert(field_texts(struct_statement.fields@, field_types@).take(i as int) =~= field_texts(struct_statement.fields@, field_types@));
        }

        let mut result = builder(context);
        result.pad();
        result.push("struct ");
        result.push(name);
        result.push(" {");
        result.ln();
        if fields.len() > 0 {
            result.level = result.level + 1;
            result.push_all_padded(fields.as_slice(), "\n");
            result.level = result.level - 1;
            result.wrap();
        }
        result.push("}\n");
        proof {
            assert(seq!['\n'] == "\n"@) by { reveal_strlit("\n"); }
            let level = context.level as int;
            let f = field_texts(struct_statement.fields@, field_types@);
            assert(result.result@ =~= spaces(level * 4) + "struct "@ + name@ + " {"@ + "\n"@
                + (if f.len() > 0 { padded_text(f, "\n"@, (level + 1) * 4) + "\n"@ + spaces(level * 4) } else { Seq::empty() })
                + "}\n"@);
        }
        let text = result.result;
        context.set_transpile_result(node, text);
    }

    /// A struct initializer: the struct's name and its field initializers
    /// one level deeper, in braces.
    pub fn visit_struct_initializer(
        &self,
        node: AstNodeIndex,
        struct_name: &Token,
        field_initializers: &Vec<(Token, String)>,
        context: &mut CTranspilerContext,
    )
        requires
            levels_fit(old(context).level as int),
        ensures
            ({
                let level = old(context).level as int;
                let fields = initializer_texts(field_initializers@);
                records(old(context), final(context), node,
                    struct_name.literal@ + " {"@
                        + (if fields.len() > 0 {
                            "\n"@ + spaces((level + 1) * 4) + padded_text(fields, ","@, (level + 1) * 4) + "\n"@ + spaces((level + 1) * 4)
                        } else {
                            Seq::empty()
                        })
                        + "}"@)
            }),
    {
        let mut fields: Vec<String> = Vec::new();
        let mut i: usize = 0;
        while i < field_initializers.len()
            invariant
                i <= field_initializers@.len(),
                texts(fields@) == initializer_texts(field_initializers@).take(i as int),
            decreases field_initializers@.len() - i,
        {
            let mut field = ".".to_owned();
            push_str(&mut field, field_initializers[i].0.literal.as_str());
            push_str(&mut field, " = ");
            push_str(&mut field, field_initializers[i].1.as_str());
            let ghost before = fields@;
            fields.push(field);
            proof {
                assert(texts(fields@) =~= texts(before).push(field@));
                assert(initializer_texts(field_initializers@).take(i + 1)
                    =~= initializer_texts(field_initializers@).take(i as int).push(field@));
            }
            i = i + 1;
        }
        proof {
            assert(initializer_texts(field_initializers@).take(i as int) =~= initializer_texts(field_initializers@));
        }
        let mut result = builder(context);
        result.push(struct_name.literal.as_str());
        result.push(" {");
        if fields.len() > 0 {
            result.level = result.level + 1;
            result.wrap();
            result.push_all_padded(fields.as_slice(), ",");
            result.wrap();
            result.level = result.level - 1;
        }
        result.push("}");
        proof {
            assert(seq!['\n'] == "\n"@) by { reveal_strlit("\n"); }
            let level = context.level as int;
            let f = initializer_texts(field_initializers@);
            assert(result.result@ =~= struct_name.literal@ + " {"@
                + (if f.len() > 0 {
                    "\n"@ + spaces((level + 1) * 4) + padded_text(f, ","@, (level + 1) * 4) + "\n"@ + spaces((level + 1) * 4)
                } else {
                    Seq::empty()
                })
                + "}"@);
        }
        self.record(node, result.result, context);
    }

    /// An `impl` block: at the current level, its statements' and functions'
    /// texts one level deeper.
    pub fn visit_impl_statement(&self, node: AstNodeIndex, statements: &Vec<String>, context: &mut CTranspilerContext)
        requires
            levels_fit(old(context).level as int),
        ensures
            ({
                let level = old(context).level as int;
                records(old(context), final(context), node,
                    spaces(level * 4) + padded_text(texts(statements@), ""@, (level + 1) * 4))
            }),
    {
        let mut result = builder(context);
        result.pad();
        result.level = result.level + 1;
        result.push_all_padded(statements.as_slice(), "");
        result.level = result.level - 1;
        proof {
            assert(seq!['\n'] == "\n"@) by { reveal_strlit("\n"); }
            let level = context.level as int;
            assert(result.result@ =~= spaces(level * 4) + padded_text(texts(statements@), ""@, (level + 1) * 4));
        }
        self.record(node, result.result, context);
    }

    /// Writes the body part of a function, as [`body_text`] says.
    fn push_body(&self, result: &mut TranspileHelper, body: &Vec<String>)
        requires
            levels_fit(old(result).level as int),
            old(result).indent_size == 4,
        ensures
            final(result).result@ == old(result).result@ + body_text(texts(body@), old(result).level as int),
            final(result).level == old(result).level,
            final(result).indent_size == 4,
    {
        if body.len() > 0 {
            result.space();
            result.push("{\n");
            result.push_all_indented(body.as_slice(), "");
            result.wrap();
            result.push("}");
            proof {
                assert(seq![' '] == " "@) by { reveal_strlit(" "); }
                assert(seq!['\n'] == "\n"@) by { reveal_strlit("\n"); }
                assert(result.result@ =~= old(result).result@ + body_text(texts(body@), result.level as int));
            }
        } else {
            result.push("{}\n");
        }
    }

    /// Writes a parameter list, as [`parameter_list_text`] says.
    fn push_parameter_list(&self, result: &mut TranspileHelper, parameters: &Vec<String>, has_arguments: bool)
        requires
            levels_fit(old(result).level as int),
            old(result).indent_size == 4,
        ensures
            final(result).result@ == old(result).result@ + parameter_list_text(texts(parameters@), has_arguments, old(result).level as int),
            final(result).level == old(result).level,
            final(result).indent_size == 4,
    {
        if has_arguments {
            result.push("(\n");
            result.level = result.level + 1;
            result.push_all_padded(parameters.as_slice(), ",");
            result.level = result.level - 1;
            result.wrap();
            result.push(")");
            proof {
                assert(seq!['\n'] == "\n"@) by { reveal_strlit("\n"); }
                assert(result.result@ =~= old(result).result@ + parameter_list_text(texts(parameters@), has_arguments, result.level as int));
            }
        } else {
            result.push("()");
        }
    }

    /// A function declaration: at the current level, its return type in C,
    /// its name, its parameters with the types the typing pass found, and
    /// its body's statements.
    pub fn visit_function_statement(
        &self,
        node: AstNodeIndex,
        name: &Token,
        arguments: &Vec<TypedDeclaration>,
        function_type: &FunctionType,
        body: &Vec<String>,
        context: &mut CTranspilerContext,
    )
        requires
            levels_fit(old(context).level as int),
        ensures
            ({
                let level = old(context).level as int;
                records(old(context), final(context), node,
                    spaces(level * 4) + c_type_text(function_type.return_type) + " "@ + name.lexeme@
                        + parameter_list_text(parameter_texts(arguments@, function_type.arguments@),
                            function_type.arguments@.len() > 0, level)
                        + body_text(texts(body@), level))
            }),
    {
        let mut parameters: Vec<String> = Vec::new();
        build_parameters(arguments, &function_type.arguments, &mut parameters);
        let mut result = builder(context);
        result.pad();
        let return_type = function_type.return_type.transpiled();
        result.push(return_type.as_str());
        result.space();
        result.push(name.lexeme.as_str());
        self.push_parameter_list(&mut result, &parameters, function_type.arguments.len() > 0);
        self.push_body(&mut result, body);
        proof {
            assert(seq![' '] == " "@) by { reveal_strlit(" "); }
            let level = context.level as int;
            assert(texts(parameters@) =~= parameter_texts(arguments@, function_type.arguments@));
            assert(result.result@ =~= spaces(level * 4) + c_type_text(function_type.return_type) + " "@ + name.lexeme@
                + parameter_list_text(parameter_texts(arguments@, function_type.arguments@), function_type.arguments@.len() > 0, level)
                + body_text(texts(body@), level));
        }
        self.record(node, result.result, context);
    }

    /// A method declaration: as a function, with a `self` parameter of the
    /// first argument type before the others.
    pub fn visit_method_statement(
        &self,
        node: AstNodeIndex,
        name: &Token,
        arguments: &Vec<TypedDeclaration>,
        function_type: &FunctionType,
        body: &Vec<String>,
        context: &mut CTranspilerContext,
    )
        requires
            levels_fit(old(context).level as int),
            function_type.arguments@.len() > 0,
        ensures
            ({
                let level = old(context).level as int;
                let self_parameter = c_type_text(function_type.arguments@[0]) + " self"@;
                records(old(context), final(context), node,
                    spaces(level * 4) + c_type_text(function_type.return_type) + " "@ + name.lexeme@
                        + parameter_list_text(seq![self_parameter] + parameter_texts(arguments@, function_type.arguments@), true, level)
                        + body_text(texts(body@), level))
            }),
    {
        let mut self_parameter = function_type.arguments[0].transpiled();
        push_str(&mut self_parameter, " self");
        let mut parameters: Vec<String> = Vec::new();
        parameters.push(self_parameter);
        build_parameters(arguments, &function_type.arguments, &mut parameters);
        let mut result = builder(context);
        result.pad();
        let return_type = function_type.return_type.transpiled();
        result.push(return_type.as_str());
        result.space();
        result.push(name.lexeme.as_str());
        self.push_parameter_list(&mut result, &parameters, true);
        self.push_body(&mut result, body);
        proof {
            assert(seq![' '] == " "@) by { reveal_strlit(" "); }
            let level = context.level as int;
            let sp = c_type_text(function_type.arguments@[0]) + " self"@;
            assert(texts(parameters@) =~= seq![sp] + parameter_texts(arguments@, function_type.arguments@)) by {
                assert(texts(seq![self_parameter]) =~= seq![sp]);
            }
            assert(result.result@ =~= spaces(level * 4) + c_type_text(function_type.return_type) + " "@ + name.lexeme@
                + parameter_list_text(seq![sp] + parameter_texts(arguments@, function_type.arguments@), true, level)
                + body_text(texts(body@), level));
        }
        self.record(node, result.result, context);
    }
}


/// The parameters of a declaration, each as its annotation in C, a space and
/// its name.
pub open spec fn declaration_texts(arguments: Seq<TypedDeclaration>) -> Seq<Seq<char>> {
    Seq::new(arguments.len(), |i: int| type_annotation_text(arguments[i].declared_type) + " "@ + arguments[i].name.literal@)
}

/// Whether every annotation of the declarations has its pointer levels
/// counted in a `usize`.
pub open spec fn declarations_fit(arguments: Seq<TypedDeclaration>) -> bool {
    forall|i: int| 0 <= i < arguments.len() ==> annotation_depth_fits(#[trigger] arguments[i].declared_type)
}

/// The return type written before a function's name: the annotation, or
/// `void ` when there is none.
pub open spec fn return_type_text(return_type: Option<TypeAnnotation>) -> Seq<char> {
    match return_type {
        Some(rt) => type_annotation_text(rt),
        None => "void "@,
    }
}

/// A function of an `impl` block written whole: its header, then its body's
/// statements, one per line, in braces.
pub open spec fn function_text(function: ImplFunctionSignature, body: Seq<Seq<char>>) -> Seq<char> {
    let (return_type, name, arguments, self_part) = match function {
        ImplFunctionSignature::Function(f) => (f.return_type, f.name, f.arguments, Seq::<char>::empty()),
        ImplFunctionSignature::Method(m) => (m.return_type, m.name, m.arguments,
            (if m.is_mut_self { Seq::<char>::empty() } else { "const "@ }) + m.bound_type.literal@ + "*const self"@),
    };
    return_type_text(return_type) + " "@ + name.literal@ + "("@ + self_part
        + joined(declaration_texts(arguments@), ", "@) + ")"@ + "\n"@ + "{\n\t"@
        + joined(body, "\n\t"@) + "\n}\n\n"@
}

/// Whether the annotations of the function can be written.
pub open spec fn function_fits(function: ImplFunctionSignature) -> bool {
    match function {
        ImplFunctionSignature::Function(f) => declarations_fit(f.arguments@)
            && (f.return_type matches Some(rt) ==> annotation_depth_fits(rt)),
        ImplFunctionSignature::Method(m) => declarations_fit(m.arguments@)
            && (m.return_type matches Some(rt) ==> annotation_depth_fits(rt)),
    }
}

impl CTranspilerSemantics {
    /// The parameters' texts joined by `, `.
    fn transpile_declarations(&self, arguments: &Vec<TypedDeclaration>) -> (r: String)
        requires
            declarations_fit(arguments@),
        ensures
            r@ == joined(declaration_texts(arguments@), ", "@),
    {
        let mut declarations: Vec<String> = Vec::new();
        let mut i: usize = 0;
        while i < arguments.len()
            invariant
                i <= arguments@.len(),
                declarations_fit(arguments@),
                texts(declarations@) == declaration_texts(arguments@).take(i as int),
            decreases arguments@.len() - i,
        {
            let declaration = self.transpile_typed_declaration(&arguments[i]);
            let ghost before = declarations@;
            declarations.push(declaration);
            proof {
                assert(texts(declarations@) =~= texts(before).push(declaration@));
                assert(declaration_texts(arguments@).take(i + 1) =~= declaration_texts(arguments@).take(i as int).push(declaration@));
            }
            i = i + 1;
        }
        proof {
            assert(declaration_texts(arguments@).take(i as int) =~= declaration_texts(arguments@));
        }
        join_texts(&declarations, ", ")
    }

    /// A function or method of an `impl` block written whole, given the
    /// texts of its body's statements. A method takes `self` as a constant
    /// pointer to its type, to a constant value unless it changes `self`.
    pub fn transpile_function(&self, function: &ImplFunctionSignature, prefix: String, body: &Vec<String>) -> (r: String)
        requires
            function_fits(*function),
        ensures
            r@ == function_text(*function, texts(body@)),
    {
        let mut result = String::new();
        let (return_type, name, arguments) = match function {
            ImplFunctionSignature::Function(f) => (&f.return_type, &f.name, &f.arguments),
            ImplFunctionSignature::Method(m) => (&m.return_type, &m.name, &m.arguments),
        };
        match return_type {
            Some(rt) => {
                let text = self.transpile_type_annotation(rt);
                push_str(&mut result, text.as_str());
            },
            None => push_str(&mut result, "void "),
        }
        push_str(&mut result, " ");
        push_str(&mut result, name.literal.as_str());
        push_str(&mut result, "(");
        match function {
            ImplFunctionSignature::Function(_) => {},
            ImplFunctionSignature::Method(m) => {
                if !m.is_mut_self {
                    push_str(&mut result, "const ");
                }
                push_str(&mut result, m.bound_type.literal.as_str());
                push_str(&mut result, "*const self");
            },
        }
        let arguments_text = self.transpile_declarations(arguments);
        push_str(&mut result, arguments_text.as_str());
        push_str(&mut result, ")");
        push_str(&mut result, "\n");
        push_str(&mut result, "{\n\t");
        let body_text = join_texts(body, "\n\t");
        push_str(&mut result, body_text.as_str());
        push_str(&mut result, "\n}\n\n");
        proof {
            assert(result@ =~= function_text(*function, texts(body@)));
        }
        result
    }
}


/// How C writes a literal: numbers in decimal, booleans as `true` and
/// `false`, characters in single quotes and strings in double quotes.
pub open spec fn literal_text(literal: PlainLiteral) -> Seq<char> {
    match literal {
        PlainLiteral::U8(v) => decimal(v as nat),
        PlainLiteral::U16(v) => decimal(v as nat),
        PlainLiteral::U32(v) => decimal(v as nat),
        PlainLiteral::U64(v) => decimal(v as nat),
        PlainLiteral::I8(v) => signed_decimal(v as int),
        PlainLiteral::I16(v) => signed_decimal(v as int),
        PlainLiteral::I32(v) => signed_decimal(v as int),
        PlainLiteral::I64(v) => signed_decimal(v as int),
        PlainLiteral::Bool(b) => if b { "true"@ } else { "false"@ },
        PlainLiteral::Char(c) => seq!['\''] + seq![c] + seq!['\''],
        PlainLiteral::String(s) => seq!['"'] + s@ + seq!['"'],
    }
}

impl CTranspilerSemantics {
    /// A literal, written as [`literal_text`] says.
    pub fn visit_literal(&self, node: AstNodeIndex, literal: &PlainLiteral, context: &mut CTranspilerContext)
        ensures
            records(old(context), final(context), node, literal_text(*literal)),
    {
        let text = match literal {
            PlainLiteral::U8(v) => decimal_string(*v as u64),
            PlainLiteral::U16(v) => decimal_string(*v as u64),
            PlainLiteral::U32(v) => decimal_string(*v as u64),
            PlainLiteral::U64(v) => decimal_string(*v),
            PlainLiteral::I8(v) => signed_decimal_string(*v as i64),
            PlainLiteral::I16(v) => signed_decimal_string(*v as i64),
            PlainLiteral::I32(v) => signed_decimal_string(*v as i64),
            PlainLiteral::I64(v) => signed_decimal_string(*v),
            PlainLiteral::Bool(b) => if *b { "true".to_owned() } else { "false".to_owned() },
            PlainLiteral::Char(c) => {
                let mut t = String::new();
                push_char(&mut t, '\'');
                push_char(&mut t, *c);
                push_char(&mut t, '\'');
                proof {
                    assert(t@ =~= seq!['\''] + seq![*c] + seq!['\'']);
                }
                t
            },
            PlainLiteral::String(s) => {
                let mut t = String::new();
                push_char(&mut t, '"');
                push_str(&mut t, s.as_str());
                push_char(&mut t, '"');
                proof {
                    assert(t@ =~= seq!['"'] + s@ + seq!['"']);
                }
                t
            },
        };
        self.record(node, text, context);
    }
}

} // verus!
