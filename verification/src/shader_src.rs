//! Specialising kernel source text: named constants and named texture
//! bindings are rewritten line by line before the text is compiled.
//!
//! A line is recognised by one of three patterns. When the declared name has
//! an entry in the substitution table, the value of the constant or the format
//! of the binding is replaced where it stands: everything else on the line,
//! and every other line, passes through as it is. A name of the table that no
//! line declares changes nothing and is no error.

use std::borrow::Cow;
use vstd::prelude::*;
use vstd::string::*;

use crate::text::{
    check_span, ends_lines_with_lf, has_no_line_feed, is_span, join_lines,
    lemma_lines_hold_no_line_feed, lemma_lines_of_joined, lemma_lines_round_trip,
    lemma_replace_span_keeps_the_rest, lemma_replaced_holds_no_line_feed, replace_span, span_text,
    spec_lines, split_lines, str_eq, strip_cr, text_before, text_between, text_from,
    trim_span_end, trimmed_end, write_replaced,
};
use vstd::utf8::encode_utf8;
use crate::texture::{TextureFormat, ToApi};

verus! {

/// A constant declaration: `const NAME [: TYPE] = VALUE;`.
pub const RE_CONSTANTS: &'static str =
    r"const[ \t]+([A-Z][A-Z0-9_]*)[ \t]*(:)?[ \t]*([^ \t=]+)?[ \t]*=[ \t]*([^ \t;]*);";

/// A storage texture binding: `var NAME: texture_storage_DIM<FORMAT, read|write>;`.
pub const RE_TEXTURE_STORAGE: &'static str =
    r"var ([a-z0-9_]+): texture_storage_([^<]+)[ \t]*<[ \t]*([^,]*)[ \t]*,[ \t]*(read|write)[ \t]*>;";

/// A cube texture binding: `var NAME: texture_cube<FORMAT>;`.
pub const RE_TEXTURE_CUBE: &'static str = r"var ([a-z0-9_]+): texture_cube[ \t]*<[ \t]*([^>]*)[ \t]*>;";

/// Where the first match of `pattern` in `haystack` captured its groups:
/// `None` where the pattern is no valid regular expression or matches
/// nowhere, else for each of the groups `0..=groups` in order the byte offsets
/// at which the group begins and ends in the haystack, `None` for a group that
/// took no part in the match or that the pattern does not have.
pub uninterp spec fn regex_captures(pattern: Seq<char>, haystack: Seq<char>, groups: nat) -> Option<
    Seq<Option<(usize, usize)>>,
>;

/// Compiles `pattern` with `regex::Regex::new` and searches `haystack` with
/// `regex::Regex::captures`.
///
/// Trusted: the search depends on the pattern and the haystack alone, so its
/// outcome is the named value `regex_captures`; a pattern that does not
/// compile is reported like a haystack without a match. The list that comes
/// back has one entry for each requested group, read with `Captures::get`,
/// `Match::start` and `Match::end`. Group 0, the whole match, is always
/// there, and every group that is there begins and ends on a character
/// boundary inside the haystack, the beginning not behind the end.
#[verifier::external_body]
fn captures(pattern: &str, haystack: &str, groups: u8) -> (found: Option<
    Vec<Option<(usize, usize)>>,
>)
    ensures
        found.deep_view() == regex_captures(pattern@, haystack@, groups as nat),
        found matches Some(list) ==> {
            &&& list.len() == groups + 1
            &&& list[0] is Some
            &&& forall|i: int|
                0 <= i < list.len() ==> ((#[trigger] list[i]) matches Some(span) ==> is_span(
                    haystack@,
                    span.0 as int,
                    span.1 as int,
                ))
        },
{
    match regex::Regex::new(pattern) {
        Ok(re) => re.captures(haystack).map(
            |caps| (0..=groups as usize).map(|i| caps.get(i).map(|m| (m.start(), m.end()))).collect(),
        ),
        Err(_) => None,
    }
}

/// One group of a match: the span of bytes of the line that it covers, and
/// the text that stands there.
#[derive(Clone, Debug, PartialEq, Eq)]
pub struct Group {
    /// The byte offset at which the group begins.
    pub start: usize,
    /// The byte offset at which the group ends.
    pub end: usize,
    /// The text of the line between the two.
    pub text: String,
}

/// A group over plain values.
pub struct GroupView {
    pub start: int,
    pub end: int,
    pub text: Seq<char>,
}

impl View for Group {
    type V = GroupView;

    open spec fn view(&self) -> GroupView {
        GroupView { start: self.start as int, end: self.end as int, text: self.text@ }
    }
}

impl DeepView for Group {
    type V = GroupView;

    open spec fn deep_view(&self) -> GroupView {
        self@
    }
}

/// The group that a captured span stands for in a line. A span that is no run
/// of whole characters of the line stands for nothing.
pub open spec fn group_of(line: Seq<char>, span: Option<(usize, usize)>) -> Option<GroupView> {
    match span {
        Some((start, end)) => if is_span(line, start as int, end as int) {
            Some(
                GroupView {
                    start: start as int,
                    end: end as int,
                    text: text_between(line, start as int, end as int),
                },
            )
        } else {
            None
        },
        None => None,
    }
}

/// Reads the group that a captured span stands for in a line.
pub fn read_group(line: &str, span: Option<(usize, usize)>) -> (group: Option<Group>)
    ensures
        group.deep_view() == group_of(line@, span),
{
    match span {
        Some((start, end)) => {
            if check_span(line, start, end) {
                Some(Group { start, end, text: String::from_str(span_text(line, start, end)) })
            } else {
                None
            }
        },
        None => None,
    }
}

/// The token that a captured span stands for in a line: the group of the
/// span without the spaces and tabs at its end.
pub open spec fn token_of(line: Seq<char>, span: Option<(usize, usize)>) -> Option<GroupView> {
    match span {
        Some((start, end)) => if is_span(line, start as int, end as int) {
            Some(
                GroupView {
                    start: start as int,
                    end: trimmed_end(encode_utf8(line), start as int, end as int),
                    text: text_between(
                        line,
                        start as int,
                        trimmed_end(encode_utf8(line), start as int, end as int),
                    ),
                },
            )
        } else {
            None
        },
        None => None,
    }
}

/// Reads the token that a captured span stands for in a line.
pub fn read_token(line: &str, span: Option<(usize, usize)>) -> (token: Option<Group>)
    ensures
        token.deep_view() == token_of(line@, span),
{
    match span {
        Some((start, end)) => {
            if check_span(line, start, end) {
                let stop = trim_span_end(line, start, end);
                Some(Group { start, end: stop, text: String::from_str(span_text(line, start, stop)) })
            } else {
                None
            }
        },
        None => None,
    }
}

/// The value of the first entry of `table` that is named `name`.
pub open spec fn lookup<V>(table: Seq<(Seq<char>, V)>, name: Seq<char>) -> Option<V>
    decreases table.len(),
{
    if table.len() == 0 {
        None
    } else if table[0].0 == name {
        Some(table[0].1)
    } else {
        lookup(table.drop_first(), name)
    }
}

/// A line with the text of a group replaced by `token`. Where there is no
/// such group in the line, the line stays as it is.
pub open spec fn replace_group(line: Seq<char>, group: Option<GroupView>, token: Seq<char>) -> Seq<
    char,
> {
    match group {
        Some(group) => if is_span(line, group.start, group.end) {
            replace_span(line, group.start, group.end, token)
        } else {
            line
        },
        None => line,
    }
}

/// Writes a line with the text of a group replaced by `token`.
pub fn write_replaced_group(line: &str, group: &Option<Group>, token: &str) -> (text: String)
    ensures
        text@ == replace_group(line@, group.deep_view(), token@),
{
    match group {
        Some(group) => {
            if check_span(line, group.start, group.end) {
                write_replaced(line, group.start, group.end, token)
            } else {
                String::from_str(line)
            }
        },
        None => String::from_str(line),
    }
}

/// The pieces of a constant declaration, as the pattern captured them.
#[derive(Clone, Debug)]
pub struct ConstantDecl {
    /// The declared name.
    pub name: Group,
    /// The colon before the type, where the line has one.
    pub colon: Option<Group>,
    /// The type annotation, where the line has one.
    pub ty: Option<Group>,
    /// The value that the line declares.
    pub value: Option<Group>,
}

/// A constant declaration over plain values.
pub struct ConstantDeclView {
    pub name: GroupView,
    pub colon: Option<GroupView>,
    pub ty: Option<GroupView>,
    pub value: Option<GroupView>,
}

impl View for ConstantDecl {
    type V = ConstantDeclView;

    open spec fn view(&self) -> ConstantDeclView {
        ConstantDeclView {
            name: self.name@,
            colon: self.colon.deep_view(),
            ty: self.ty.deep_view(),
            value: self.value.deep_view(),
        }
    }
}

impl DeepView for ConstantDecl {
    type V = ConstantDeclView;

    open spec fn deep_view(&self) -> ConstantDeclView {
        self@
    }
}

/// Reads captured spans as a constant declaration of a line: the name is
/// group 1, the colon group 2, the type group 3 and the value group 4.
/// Without a name there is no declaration.
pub open spec fn constant_decl_of(
    line: Seq<char>,
    found: Option<Seq<Option<(usize, usize)>>>,
) -> Option<ConstantDeclView> {
    match found {
        Some(spans) => if spans.len() == 5 && group_of(line, spans[1]) is Some {
            Some(
                ConstantDeclView {
                    name: group_of(line, spans[1])->0,
                    colon: group_of(line, spans[2]),
                    ty: group_of(line, spans[3]),
                    value: group_of(line, spans[4]),
                },
            )
        } else {
            None
        },
        None => None,
    }
}

/// The constant declaration that a line holds, if it holds one.
pub open spec fn constant_decl(line: Seq<char>) -> Option<ConstantDeclView> {
    constant_decl_of(line, regex_captures(RE_CONSTANTS@, line, 4))
}

/// Reads the spans of a match of the constant pattern as a declaration.
pub fn constant_decl_from_captures(line: &str, found: Option<Vec<Option<(usize, usize)>>>) -> (decl:
    Option<ConstantDecl>)
    ensures
        decl.deep_view() == constant_decl_of(line@, found.deep_view()),
{
    match found {
        Some(spans) => {
            if spans.len() != 5 {
                return None;
            }
            let ghost all = spans.deep_view();
            assert(all[1] == spans[1]);
            assert(all[2] == spans[2]);
            assert(all[3] == spans[3]);
            assert(all[4] == spans[4]);
            let name = match read_group(line, spans[1]) {
                Some(name) => name,
                None => {
                    return None;
                },
            };
            let colon = read_group(line, spans[2]);
            let ty = read_group(line, spans[3]);
            let value = read_group(line, spans[4]);
            Some(ConstantDecl { name, colon, ty, value })
        },
        None => None,
    }
}

/// Searches a line for a constant declaration. There is one exactly where
/// the pattern matches and its name group took part in the match.
pub fn parse_constant(line: &str) -> (decl: Option<ConstantDecl>)
    ensures
        decl.deep_view() == constant_decl(line@),
        decl is Some <==> (regex_captures(RE_CONSTANTS@, line@, 4) matches Some(spans)
            && spans.len() == 5 && spans[1] is Some),
{
    let found = captures(RE_CONSTANTS, line, 4);
    proof {
        if found is Some {
            assert(found.deep_view()->0[1] == found->0[1]);
        }
    }
    constant_decl_from_captures(line, found)
}

/// What becomes of one line under a table of constants, given the declaration
/// that was found in it: where the table names the constant, the value that
/// the line declares is replaced by the table's value, and nothing else.
pub open spec fn constant_line(
    line: Seq<char>,
    decl: Option<ConstantDeclView>,
    constants: Seq<(Seq<char>, Seq<char>)>,
) -> Seq<char> {
    match decl {
        Some(decl) => match lookup(constants, decl.name.text) {
            Some(value) => replace_group(line, decl.value, value),
            None => line,
        },
        None => line,
    }
}

/// The specialised text: every line of `src` under the table of constants.
pub open spec fn spec_set_constants(src: Seq<char>, constants: Seq<(Seq<char>, Seq<char>)>) -> Seq<
    char,
> {
    join_lines(
        spec_lines(src).map_values(
            |line: Seq<char>| constant_line(line, constant_decl(line), constants),
        ),
    )
}

/// The value that a table of constants gives for `name`.
pub fn find_constant<'a>(constants: &'a [(&str, Cow<'a, str>)], name: &str) -> (value: Option<
    &'a str,
>)
    ensures
        value.deep_view() == lookup(constants.deep_view(), name@),
{
    let ghost table = constants.deep_view();
    let mut i: usize = 0;
    assert(table.subrange(0, table.len() as int) == table);
    while i < constants.len()
        invariant
            table == constants.deep_view(),
            0 <= i <= constants.len(),
            lookup(table, name@) == lookup(table.subrange(i as int, table.len() as int), name@),
        decreases constants.len() - i,
    {
        let ghost rest = table.subrange(i as int, table.len() as int);
        assert(rest[0] == constants[i as int].deep_view());
        assert(rest.drop_first() == table.subrange(i + 1, table.len() as int));
        if str_eq(constants[i].0, name) {
            let value: &'a str = match &constants[i].1 {
                Cow::Borrowed(text) => text,
                Cow::Owned(text) => text.as_str(),
            };
            return Some(value);
        }
        i = i + 1;
    }
    None
}

/// Decides one line: with a declaration whose name the table holds, the
/// declared value is replaced by the table's value; otherwise the line stays.
pub fn substitute_constant(
    line: &str,
    decl: &Option<ConstantDecl>,
    constants: &[(&str, Cow<str>)],
) -> (text: String)
    ensures
        text@ == constant_line(line@, decl.deep_view(), constants.deep_view()),
{
    match decl {
        Some(decl) => match find_constant(constants, decl.name.text.as_str()) {
            Some(value) => write_replaced_group(line, &decl.value, value),
            None => String::from_str(line),
        },
        None => String::from_str(line),
    }
}

/// Sets the values of named constants in kernel source text.
pub fn set_constants(shader_src: &str, constants: &[(&str, Cow<str>)]) -> (new_shader_src: String)
    ensures
        new_shader_src@ == spec_set_constants(shader_src@, constants.deep_view()),
{
    let lines = split_lines(shader_src);
    let ghost table = constants.deep_view();
    let ghost all = spec_lines(shader_src@);
    let ghost rewritten = all.map_values(
        |line: Seq<char>| constant_line(line, constant_decl(line), table),
    );
    let mut new_shader_src = String::new();
    let mut i: usize = 0;
    while i < lines.len()
        invariant
            all == lines.deep_view(),
            table == constants.deep_view(),
            rewritten == all.map_values(
                |line: Seq<char>| constant_line(line, constant_decl(line), table),
            ),
            0 <= i <= lines.len(),
            new_shader_src@ == join_lines(rewritten.take(i as int)),
        decreases lines.len() - i,
    {
        let line = lines[i];
        assert(line@ == all[i as int]);
        let decl = parse_constant(line);
        let new_line = substitute_constant(line, &decl, constants);
        new_shader_src.append(new_line.as_str());
        new_shader_src.append("\n");
        proof {
            reveal_strlit("\n");
            assert("\n"@ == seq!['\n']);
            assert(rewritten.take(i + 1).drop_last() == rewritten.take(i as int));
            assert(rewritten.take(i + 1).last() == new_line@);
        }
        i = i + 1;
    }
    proof {
        assert(rewritten.take(i as int) == rewritten);
    }
    new_shader_src
}

/// The pieces of a storage texture binding, as the pattern captured them.
#[derive(Clone, Debug)]
pub struct StorageTextureDecl {
    /// The name of the binding.
    pub name: Group,
    /// What follows `texture_storage_`: the dimension, such as `2d` or `2d_array`.
    pub dimension: Option<Group>,
    /// The texel format that the line declares.
    pub format: Option<Group>,
    /// The access qualifier, `read` or `write`.
    pub access: Option<Group>,
}

/// A storage texture binding over plain values.
pub struct StorageTextureDeclView {
    pub name: GroupView,
    pub dimension: Option<GroupView>,
    pub format: Option<GroupView>,
    pub access: Option<GroupView>,
}

impl View for StorageTextureDecl {
    type V = StorageTextureDeclView;

    open spec fn view(&self) -> StorageTextureDeclView {
        StorageTextureDeclView {
            name: self.name@,
            dimension: self.dimension.deep_view(),
            format: self.format.deep_view(),
            access: self.access.deep_view(),
        }
    }
}

impl DeepView for StorageTextureDecl {
    type V = StorageTextureDeclView;

    open spec fn deep_view(&self) -> StorageTextureDeclView {
        self@
    }
}

/// The pieces of a cube texture binding, as the pattern captured them.
#[derive(Clone, Debug)]
pub struct CubeTextureDecl {
    /// The name of the binding.
    pub name: Group,
    /// The sampled type that the line declares.
    pub format: Option<Group>,
}

/// A cube texture binding over plain values.
pub struct CubeTextureDeclView {
    pub name: GroupView,
    pub format: Option<GroupView>,
}

impl View for CubeTextureDecl {
    type V = CubeTextureDeclView;

    open spec fn view(&self) -> CubeTextureDeclView {
        CubeTextureDeclView { name: self.name@, format: self.format.deep_view() }
    }
}

impl DeepView for CubeTextureDecl {
    type V = CubeTextureDeclView;

    open spec fn deep_view(&self) -> CubeTextureDeclView {
        self@
    }
}

/// A texture binding that a line declares.
#[derive(Clone, Debug)]
pub enum TextureDecl {
    Storage(StorageTextureDecl),
    Cube(CubeTextureDecl),
}

/// A texture binding over plain values.
pub enum TextureDeclView {
    Storage(StorageTextureDeclView),
    Cube(CubeTextureDeclView),
}

impl View for TextureDecl {
    type V = TextureDeclView;

    open spec fn view(&self) -> TextureDeclView {
        match self {
            TextureDecl::Storage(decl) => TextureDeclView::Storage(decl@),
            TextureDecl::Cube(decl) => TextureDeclView::Cube(decl@),
        }
    }
}

impl DeepView for TextureDecl {
    type V = TextureDeclView;

    open spec fn deep_view(&self) -> TextureDeclView {
        self@
    }
}

impl TextureDeclView {
    /// The name of the binding.
    pub open spec fn name(self) -> Seq<char> {
        match self {
            TextureDeclView::Storage(decl) => decl.name.text,
            TextureDeclView::Cube(decl) => decl.name.text,
        }
    }
}

/// Reads captured spans as a storage texture binding of a line: the name is
/// group 1, the dimension group 2, the format the token of group 3 and the
/// access group 4. Without a name there is no binding.
pub open spec fn storage_decl_of(
    line: Seq<char>,
    found: Option<Seq<Option<(usize, usize)>>>,
) -> Option<StorageTextureDeclView> {
    match found {
        Some(spans) => if spans.len() == 5 && group_of(line, spans[1]) is Some {
            Some(
                StorageTextureDeclView {
                    name: group_of(line, spans[1])->0,
                    dimension: group_of(line, spans[2]),
                    format: token_of(line, spans[3]),
                    access: group_of(line, spans[4]),
                },
            )
        } else {
            None
        },
        None => None,
    }
}

/// Reads captured spans as a cube texture binding of a line: the name is
/// group 1 and the format the token of group 2. Without a name there is no
/// binding.
pub open spec fn cube_decl_of(
    line: Seq<char>,
    found: Option<Seq<Option<(usize, usize)>>>,
) -> Option<CubeTextureDeclView> {
    match found {
        Some(spans) => if spans.len() == 3 && group_of(line, spans[1]) is Some {
            Some(
                CubeTextureDeclView {
                    name: group_of(line, spans[1])->0,
                    format: token_of(line, spans[2]),
                },
            )
        } else {
            None
        },
        None => None,
    }
}

/// The storage texture binding that a line holds, if it holds one.
pub open spec fn storage_decl(line: Seq<char>) -> Option<StorageTextureDeclView> {
    storage_decl_of(line, regex_captures(RE_TEXTURE_STORAGE@, line, 4))
}

/// The cube texture binding that a line holds, if it holds one.
pub open spec fn cube_decl(line: Seq<char>) -> Option<CubeTextureDeclView> {
    cube_decl_of(line, regex_captures(RE_TEXTURE_CUBE@, line, 2))
}

/// The texture binding that a line holds: a storage binding where the line
/// has one, else a cube binding.
pub open spec fn texture_decl(line: Seq<char>) -> Option<TextureDeclView> {
    match storage_decl(line) {
        Some(decl) => Some(TextureDeclView::Storage(decl)),
        None => match cube_decl(line) {
            Some(decl) => Some(TextureDeclView::Cube(decl)),
            None => None,
        },
    }
}

/// Reads the spans of a match of the storage texture pattern as a binding.
pub fn storage_decl_from_captures(line: &str, found: Option<Vec<Option<(usize, usize)>>>) -> (decl:
    Option<StorageTextureDecl>)
    ensures
        decl.deep_view() == storage_decl_of(line@, found.deep_view()),
{
    match found {
        Some(spans) => {
            if spans.len() != 5 {
                return None;
            }
            let ghost all = spans.deep_view();
            assert(all[1] == spans[1]);
            assert(all[2] == spans[2]);
            assert(all[3] == spans[3]);
            assert(all[4] == spans[4]);
            let name = match read_group(line, spans[1]) {
                Some(name) => name,
                None => {
                    return None;
                },
            };
            let dimension = read_group(line, spans[2]);
            let format = read_token(line, spans[3]);
            let access = read_group(line, spans[4]);
            Some(StorageTextureDecl { name, dimension, format, access })
        },
        None => None,
    }
}

/// Reads the spans of a match of the cube texture pattern as a binding.
pub fn cube_decl_from_captures(line: &str, found: Option<Vec<Option<(usize, usize)>>>) -> (decl:
    Option<CubeTextureDecl>)
    ensures
        decl.deep_view() == cube_decl_of(line@, found.deep_view()),
{
    match found {
        Some(spans) => {
            if spans.len() != 3 {
                return None;
            }
            let ghost all = spans.deep_view();
            assert(all[1] == spans[1]);
            assert(all[2] == spans[2]);
            let name = match read_group(line, spans[1]) {
                Some(name) => name,
                None => {
                    return None;
                },
            };
            let format = read_token(line, spans[2]);
            Some(CubeTextureDecl { name, format })
        },
        None => None,
    }
}

/// Searches a line for a storage texture binding. There is one exactly where
/// the pattern matches and its name group took part in the match.
pub fn parse_texture_storage(line: &str) -> (decl: Option<StorageTextureDecl>)
    ensures
        decl.deep_view() == storage_decl(line@),
        decl is Some <==> (regex_captures(RE_TEXTURE_STORAGE@, line@, 4) matches Some(spans)
            && spans.len() == 5 && spans[1] is Some),
{
    let found = captures(RE_TEXTURE_STORAGE, line, 4);
    proof {
        if found is Some {
            assert(found.deep_view()->0[1] == found->0[1]);
        }
    }
    storage_decl_from_captures(line, found)
}

/// Searches a line for a cube texture binding. There is one exactly where
/// the pattern matches and its name group took part in the match.
pub fn parse_texture_cube(line: &str) -> (decl: Option<CubeTextureDecl>)
    ensures
        decl.deep_view() == cube_decl(line@),
        decl is Some <==> (regex_captures(RE_TEXTURE_CUBE@, line@, 2) matches Some(spans)
            && spans.len() == 3 && spans[1] is Some),
{
    let found = captures(RE_TEXTURE_CUBE, line, 2);
    proof {
        if found is Some {
            assert(found.deep_view()->0[1] == found->0[1]);
        }
    }
    cube_decl_from_captures(line, found)
}

/// Searches a line for a texture binding, a storage binding first.
pub fn parse_texture(line: &str) -> (decl: Option<TextureDecl>)
    ensures
        decl.deep_view() == texture_decl(line@),
{
    match parse_texture_storage(line) {
        Some(decl) => Some(TextureDecl::Storage(decl)),
        None => match parse_texture_cube(line) {
            Some(decl) => Some(TextureDecl::Cube(decl)),
            None => None,
        },
    }
}

/// What becomes of one line under a table of texture formats, given the
/// binding that was found in it: where the table names the binding, the
/// format that the line declares is replaced by the table's format, written
/// as a texel format for a storage binding and as a sampled type for a cube
/// binding, and nothing else.
pub open spec fn texture_line(
    line: Seq<char>,
    decl: Option<TextureDeclView>,
    texture_formats: Seq<(Seq<char>, TextureFormat)>,
) -> Seq<char> {
    match decl {
        Some(TextureDeclView::Storage(decl)) => match lookup(texture_formats, decl.name.text) {
            Some(format) => replace_group(line, decl.format, format.wgsl_storage()),
            None => line,
        },
        Some(TextureDeclView::Cube(decl)) => match lookup(texture_formats, decl.name.text) {
            Some(format) => replace_group(line, decl.format, format.wgsl_texture()),
            None => line,
        },
        None => line,
    }
}

/// The specialised text: every line of `src` under the table of texture formats.
pub open spec fn spec_set_texture_format(
    src: Seq<char>,
    texture_formats: Seq<(Seq<char>, TextureFormat)>,
) -> Seq<char> {
    join_lines(
        spec_lines(src).map_values(
            |line: Seq<char>| texture_line(line, texture_decl(line), texture_formats),
        ),
    )
}

/// The format that a table of texture formats gives for `name`.
pub fn find_texture_format(texture_formats: &[(&str, TextureFormat)], name: &str) -> (format:
    Option<TextureFormat>)
    ensures
        format == lookup(texture_formats.deep_view(), name@),
{
    let ghost table = texture_formats.deep_view();
    let mut i: usize = 0;
    assert(table.subrange(0, table.len() as int) == table);
    while i < texture_formats.len()
        invariant
            table == texture_formats.deep_view(),
            0 <= i <= texture_formats.len(),
            lookup(table, name@) == lookup(table.subrange(i as int, table.len() as int), name@),
        decreases texture_formats.len() - i,
    {
        let ghost rest = table.subrange(i as int, table.len() as int);
        assert(rest[0] == texture_formats[i as int].deep_view());
        assert(rest.drop_first() == table.subrange(i + 1, table.len() as int));
        if str_eq(texture_formats[i].0, name) {
            return Some(texture_formats[i].1);
        }
        i = i + 1;
    }
    None
}

/// Decides one line: with a binding whose name the table holds, the declared
/// format is replaced by the table's format; otherwise the line stays.
pub fn substitute_texture_format(
    line: &str,
    decl: &Option<TextureDecl>,
    texture_formats: &[(&str, TextureFormat)],
) -> (text: String)
    ensures
        text@ == texture_line(line@, decl.deep_view(), texture_formats.deep_view()),
{
    match decl {
        Some(TextureDecl::Storage(decl)) => match find_texture_format(
            texture_formats,
            decl.name.text.as_str(),
        ) {
            Some(format) => write_replaced_group(line, &decl.format, format.to_wgsl_storage_str()),
            None => String::from_str(line),
        },
        Some(TextureDecl::Cube(decl)) => match find_texture_format(
            texture_formats,
            decl.name.text.as_str(),
        ) {
            Some(format) => write_replaced_group(line, &decl.format, format.to_wgsl_texture_str()),
            None => String::from_str(line),
        },
        None => String::from_str(line),
    }
}

/// Changes the formats of named texture bindings in kernel source text.
pub fn set_texture_format(shader_src: &str, texture_formats: &[(&str, TextureFormat)]) -> (new_shader_src:
    String)
    ensures
        new_shader_src@ == spec_set_texture_format(shader_src@, texture_formats.deep_view()),
{
    let lines = split_lines(shader_src);
    let ghost table = texture_formats.deep_view();
    let ghost all = spec_lines(shader_src@);
    let ghost rewritten = all.map_values(
        |line: Seq<char>| texture_line(line, texture_decl(line), table),
    );
    let mut new_shader_src = String::new();
    let mut i: usize = 0;
    while i < lines.len()
        invariant
            all == lines.deep_view(),
            table == texture_formats.deep_view(),
            rewritten == all.map_values(
                |line: Seq<char>| texture_line(line, texture_decl(line), table),
            ),
            0 <= i <= lines.len(),
            new_shader_src@ == join_lines(rewritten.take(i as int)),
        decreases lines.len() - i,
    {
        let line = lines[i];
        assert(line@ == all[i as int]);
        let decl = parse_texture(line);
        let new_line = substitute_texture_format(line, &decl, texture_formats);
        new_shader_src.append(new_line.as_str());
        new_shader_src.append("\n");
        proof {
            reveal_strlit("\n");
            assert("\n"@ == seq!['\n']);
            assert(rewritten.take(i + 1).drop_last() == rewritten.take(i as int));
            assert(rewritten.take(i + 1).last() == new_line@);
        }
        i = i + 1;
    }
    proof {
        assert(rewritten.take(i as int) == rewritten);
    }
    new_shader_src
}

/// Only the group changes: a line with a group replaced is the same line
/// before the group and the same line after it, with the token where the
/// group stood.
pub proof fn lemma_replace_group_keeps_the_rest(
    line: Seq<char>,
    group: GroupView,
    token: Seq<char>,
)
    requires
        is_span(line, group.start, group.end),
    ensures
        line == text_before(line, group.start) + text_between(line, group.start, group.end)
            + text_from(line, group.end),
        replace_group(line, Some(group), token) == text_before(line, group.start) + token
            + text_from(line, group.end),
{
    lemma_replace_span_keeps_the_rest(line, group.start, group.end, token);
}

/// A constant line under a table that names it keeps everything but its
/// value: what stands before the value and what stands after it, the type
/// annotation or its absence among it, come out as they went in.
pub proof fn lemma_only_the_value_changes(
    line: Seq<char>,
    decl: ConstantDeclView,
    constants: Seq<(Seq<char>, Seq<char>)>,
)
    requires
        lookup(constants, decl.name.text) is Some,
        decl.value matches Some(value) && is_span(line, value.start, value.end),
    ensures
        constant_line(line, Some(decl), constants) == text_before(line, decl.value->0.start)
            + lookup(constants, decl.name.text)->0 + text_from(line, decl.value->0.end),
        line == text_before(line, decl.value->0.start) + text_between(
            line,
            decl.value->0.start,
            decl.value->0.end,
        ) + text_from(line, decl.value->0.end),
{
    lemma_replace_span_keeps_the_rest(
        line,
        decl.value->0.start,
        decl.value->0.end,
        lookup(constants, decl.name.text)->0,
    );
}

/// A storage binding under a table that names it keeps everything but its
/// format: the dimension, the access qualifier and whatever else shares the
/// line come out as they went in.
pub proof fn lemma_only_the_format_changes(
    line: Seq<char>,
    decl: StorageTextureDeclView,
    texture_formats: Seq<(Seq<char>, TextureFormat)>,
)
    requires
        lookup(texture_formats, decl.name.text) is Some,
        decl.format matches Some(format) && is_span(line, format.start, format.end),
    ensures
        texture_line(line, Some(TextureDeclView::Storage(decl)), texture_formats) == text_before(
            line,
            decl.format->0.start,
        ) + lookup(texture_formats, decl.name.text)->0.wgsl_storage() + text_from(
            line,
            decl.format->0.end,
        ),
        line == text_before(line, decl.format->0.start) + text_between(
            line,
            decl.format->0.start,
            decl.format->0.end,
        ) + text_from(line, decl.format->0.end),
{
    lemma_replace_span_keeps_the_rest(
        line,
        decl.format->0.start,
        decl.format->0.end,
        lookup(texture_formats, decl.name.text)->0.wgsl_storage(),
    );
}

/// Whether no line of `src` declares a constant that the table names.
pub open spec fn declares_none_of(src: Seq<char>, constants: Seq<(Seq<char>, Seq<char>)>) -> bool {
    forall|i: int|
        0 <= i < spec_lines(src).len() ==> (#[trigger] constant_decl(spec_lines(src)[i])
            matches Some(decl) ==> lookup(constants, decl.name.text) is None)
}

/// Whether no line of `src` binds a texture that the table names.
pub open spec fn binds_none_of(
    src: Seq<char>,
    texture_formats: Seq<(Seq<char>, TextureFormat)>,
) -> bool {
    forall|i: int|
        0 <= i < spec_lines(src).len() ==> (#[trigger] texture_decl(spec_lines(src)[i]) matches Some(
            decl,
        ) ==> lookup(texture_formats, decl.name()) is None)
}

/// A line stays as it is unless it declares a constant that the table names:
/// substituting an unrelated name leaves the line unchanged.
pub proof fn lemma_unrelated_constant_keeps_line(
    line: Seq<char>,
    decl: Option<ConstantDeclView>,
    constants: Seq<(Seq<char>, Seq<char>)>,
)
    requires
        decl matches Some(found) ==> lookup(constants, found.name.text) is None,
    ensures
        constant_line(line, decl, constants) == line,
{
}

/// A line stays as it is unless it binds a texture that the table names.
pub proof fn lemma_unrelated_format_keeps_line(
    line: Seq<char>,
    decl: Option<TextureDeclView>,
    texture_formats: Seq<(Seq<char>, TextureFormat)>,
)
    requires
        decl matches Some(found) ==> lookup(texture_formats, found.name()) is None,
    ensures
        texture_line(line, decl, texture_formats) == line,
{
}

/// Names of the table that no line declares are passed over in silence: the
/// lines of the source come out as they went in.
pub proof fn lemma_undeclared_constants_change_nothing(
    src: Seq<char>,
    constants: Seq<(Seq<char>, Seq<char>)>,
)
    requires
        declares_none_of(src, constants),
    ensures
        spec_set_constants(src, constants) == join_lines(spec_lines(src)),
{
    let lines = spec_lines(src);
    let rewritten = lines.map_values(
        |line: Seq<char>| constant_line(line, constant_decl(line), constants),
    );
    assert forall|i: int| 0 <= i < lines.len() implies rewritten[i] == lines[i] by {
        lemma_unrelated_constant_keeps_line(lines[i], constant_decl(lines[i]), constants);
    }
    assert(rewritten =~= lines);
}

/// Bindings of the table that no line declares are passed over in silence.
pub proof fn lemma_unbound_formats_change_nothing(
    src: Seq<char>,
    texture_formats: Seq<(Seq<char>, TextureFormat)>,
)
    requires
        binds_none_of(src, texture_formats),
    ensures
        spec_set_texture_format(src, texture_formats) == join_lines(spec_lines(src)),
{
    let lines = spec_lines(src);
    let rewritten = lines.map_values(
        |line: Seq<char>| texture_line(line, texture_decl(line), texture_formats),
    );
    assert forall|i: int| 0 <= i < lines.len() implies rewritten[i] == lines[i] by {
        lemma_unrelated_format_keeps_line(lines[i], texture_decl(lines[i]), texture_formats);
    }
    assert(rewritten =~= lines);
}

/// With an empty table the source comes out unchanged, line for line, each
/// line closed by a line feed.
pub proof fn lemma_empty_table_changes_nothing(src: Seq<char>)
    ensures
        spec_set_constants(src, Seq::empty()) == join_lines(spec_lines(src)),
        spec_set_texture_format(src, Seq::empty()) == join_lines(spec_lines(src)),
{
    assert(declares_none_of(src, Seq::empty()));
    assert(binds_none_of(src, Seq::empty()));
    lemma_undeclared_constants_change_nothing(src, Seq::empty());
    lemma_unbound_formats_change_nothing(src, Seq::empty());
}

/// With an empty table a source whose lines each end in a bare line feed
/// comes out character for character as it went in.
pub proof fn lemma_empty_table_is_identity(src: Seq<char>)
    requires
        ends_lines_with_lf(src),
    ensures
        spec_set_constants(src, Seq::empty()) == src,
        spec_set_texture_format(src, Seq::empty()) == src,
{
    lemma_empty_table_changes_nothing(src);
    lemma_lines_round_trip(src);
}

/// Whether no value of a table of constants holds a line feed.
pub open spec fn values_hold_no_line_feed(constants: Seq<(Seq<char>, Seq<char>)>) -> bool {
    forall|i: int| 0 <= i < constants.len() ==> has_no_line_feed((#[trigger] constants[i]).1)
}

/// What a table without line feeds gives for a name holds no line feed.
pub proof fn lemma_lookup_holds_no_line_feed(
    constants: Seq<(Seq<char>, Seq<char>)>,
    name: Seq<char>,
)
    requires
        values_hold_no_line_feed(constants),
    ensures
        lookup(constants, name) matches Some(value) ==> has_no_line_feed(value),
    decreases constants.len(),
{
    if constants.len() > 0 {
        assert(has_no_line_feed(constants[0].1));
        if constants[0].0 != name {
            let rest = constants.drop_first();
            assert forall|i: int| 0 <= i < rest.len() implies has_no_line_feed(
                (#[trigger] rest[i]).1,
            ) by {
                assert(rest[i] == constants[i + 1]);
            }
            lemma_lookup_holds_no_line_feed(rest, name);
        }
    }
}

/// A line without a line feed has none after a token without one has taken
/// the place of a group.
pub proof fn lemma_replaced_group_holds_no_line_feed(
    line: Seq<char>,
    group: Option<GroupView>,
    token: Seq<char>,
)
    requires
        has_no_line_feed(line),
        has_no_line_feed(token),
    ensures
        has_no_line_feed(replace_group(line, group, token)),
{
    match group {
        Some(found) => {
            if is_span(line, found.start, found.end) {
                lemma_replaced_holds_no_line_feed(line, found.start, found.end, token);
            }
        },
        None => {},
    }
}

/// Under a table whose values hold no line feed the lines of the source stay
/// lines: the result has as many lines as the source, and each of its lines
/// is what became of the line of the source at the same place, without the
/// carriage return that may stand at its end. A line that declares no
/// constant of the table is therefore found again as it was.
pub proof fn lemma_set_constants_keeps_the_lines(
    src: Seq<char>,
    constants: Seq<(Seq<char>, Seq<char>)>,
)
    requires
        values_hold_no_line_feed(constants),
    ensures
        spec_lines(spec_set_constants(src, constants)).len() == spec_lines(src).len(),
        forall|i: int|
            0 <= i < spec_lines(src).len() ==> #[trigger] spec_lines(
                spec_set_constants(src, constants),
            )[i] == strip_cr(
                constant_line(spec_lines(src)[i], constant_decl(spec_lines(src)[i]), constants),
            ),
{
    let lines = spec_lines(src);
    let rewritten = lines.map_values(
        |line: Seq<char>| constant_line(line, constant_decl(line), constants),
    );
    lemma_lines_hold_no_line_feed(src, 0);
    assert forall|i: int| 0 <= i < rewritten.len() implies has_no_line_feed(
        #[trigger] rewritten[i],
    ) by {
        let line = lines[i];
        assert(has_no_line_feed(line));
        match constant_decl(line) {
            Some(decl) => {
                lemma_lookup_holds_no_line_feed(constants, decl.name.text);
                match lookup(constants, decl.name.text) {
                    Some(value) => {
                        lemma_replaced_group_holds_no_line_feed(line, decl.value, value);
                    },
                    None => {},
                }
            },
            None => {},
        }
    }
    lemma_lines_of_joined(rewritten);
}

/// The lines of the source stay lines under any table of texture formats:
/// the result has as many lines as the source, and each of its lines is what
/// became of the line of the source at the same place, without the carriage
/// return that may stand at its end.
pub proof fn lemma_set_texture_format_keeps_the_lines(
    src: Seq<char>,
    texture_formats: Seq<(Seq<char>, TextureFormat)>,
)
    ensures
        spec_lines(spec_set_texture_format(src, texture_formats)).len() == spec_lines(src).len(),
        forall|i: int|
            0 <= i < spec_lines(src).len() ==> #[trigger] spec_lines(
                spec_set_texture_format(src, texture_formats),
            )[i] == strip_cr(
                texture_line(spec_lines(src)[i], texture_decl(spec_lines(src)[i]), texture_formats),
            ),
{
    let lines = spec_lines(src);
    let rewritten = lines.map_values(
        |line: Seq<char>| texture_line(line, texture_decl(line), texture_formats),
    );
    lemma_lines_hold_no_line_feed(src, 0);
    reveal_strlit("rgba32float");
    reveal_strlit("rgba16float");
    reveal_strlit("f32");
    assert forall|i: int| 0 <= i < rewritten.len() implies has_no_line_feed(
        #[trigger] rewritten[i],
    ) by {
        let line = lines[i];
        assert(has_no_line_feed(line));
        match texture_decl(line) {
            Some(TextureDeclView::Storage(decl)) => {
                match lookup(texture_formats, decl.name.text) {
                    Some(found) => {
                        assert(has_no_line_feed(found.wgsl_storage()));
                        lemma_replaced_group_holds_no_line_feed(
                            line,
                            decl.format,
                            found.wgsl_storage(),
                        );
                    },
                    None => {},
                }
            },
            Some(TextureDeclView::Cube(decl)) => {
                match lookup(texture_formats, decl.name.text) {
                    Some(found) => {
                        assert(has_no_line_feed(found.wgsl_texture()));
                        lemma_replaced_group_holds_no_line_feed(
                            line,
                            decl.format,
                            found.wgsl_texture(),
                        );
                    },
                    None => {},
                }
            },
            None => {},
        }
    }
    lemma_lines_of_joined(rewritten);
}

} // verus!
