//! The patch language: one statement per line.
//!
//! A line is a module declaration (`name: type params`), a connection
//! (`destination <- source`), a parameter assignment (`module.param <- number`),
//! an import (`import path as alias`) or the header of a patchbay block.

use vstd::prelude::*;
use crate::modules::{module_type_from, module_type_of, ModuleType};
use crate::number::{is_number, Number};
use crate::text::{
    begins_with, chars_of, find, find_in, is_text, join, joined, slice, split_whitespace,
    starts_with, string_from, texts, trim, trimmed, words_of,
};

verus! {

/// One port of a patchbay: its name, its number and what it is for.
#[derive(Debug)]
pub struct PortDef {
    pub name: String,
    pub port_number: u32,
    pub description: Option<String>,
}

/// The ports that a sub-patch offers.
#[derive(Debug)]
pub struct PatchbayDef {
    pub ports: Vec<PortDef>,
}

/// An import: the path of the sub-patch and the name it is imported under.
#[derive(Debug)]
pub struct ImportDef {
    pub path: String,
    pub alias: Option<String>,
}

/// The type of a declared module: built in, or the name of an imported sub-patch.
#[derive(Debug)]
pub enum ModuleTypeRef {
    BuiltIn(ModuleType),
    Imported(String),
}

/// A statement of the patch language.
#[derive(Debug)]
pub enum Command {
    /// A module of the given type under the given name.
    CreateModule { name: String, module_type: ModuleTypeRef, params: Vec<Number> },
    /// A connection from a source expression to a destination.
    Connect { from: String, to: String },
    /// A value for a parameter of a module.
    SetParam { module: String, param: String, value: Number },
    /// The patchbay of the surrounding sub-patch.
    DefinePatchbay { patchbay: PatchbayDef },
    /// An import of a sub-patch.
    Import { import: ImportDef },
}

/// Why a line is no statement.
#[derive(Debug)]
pub enum ParseError {
    /// The line is blank or holds only a comment.
    Empty,
    /// A declaration names no module type.
    MissingModuleType,
    /// The line has none of the forms of a statement. The error holds the
    /// line without its comment and the blanks around it.
    Unrecognized { line: String },
}

/// What a `ParseError` holds.
pub enum ParseErrorView {
    Empty,
    MissingModuleType,
    Unrecognized { line: Seq<char> },
}

impl View for ParseError {
    type V = ParseErrorView;

    open spec fn view(&self) -> ParseErrorView {
        match self {
            ParseError::Empty => ParseErrorView::Empty,
            ParseError::MissingModuleType => ParseErrorView::MissingModuleType,
            ParseError::Unrecognized { line } => ParseErrorView::Unrecognized { line: line@ },
        }
    }
}

impl ParseError {
    /// The text of the error.
    pub open spec fn text(&self) -> Seq<char> {
        match self {
            ParseError::Empty => "Empty or comment line"@,
            ParseError::MissingModuleType => "Missing module type"@,
            ParseError::Unrecognized { line } => "Could not parse line: "@ + line@,
        }
    }

    /// The text shown to the user.
    pub fn message(&self) -> (r: String)
        ensures
            r@ == self.text(),
    {
        match self {
            ParseError::Empty => String::from_str("Empty or comment line"),
            ParseError::MissingModuleType => String::from_str("Missing module type"),
            ParseError::Unrecognized { line } => String::from_str("Could not parse line: ").concat(
                line.as_str(),
            ),
        }
    }
}

/// What a `PortDef` holds.
pub struct PortDefView {
    pub name: Seq<char>,
    pub port_number: u32,
    pub description: Option<Seq<char>>,
}

/// What an `ImportDef` holds.
pub struct ImportDefView {
    pub path: Seq<char>,
    pub alias: Option<Seq<char>>,
}

/// What a `ModuleTypeRef` holds.
pub enum ModuleTypeRefView {
    BuiltIn(ModuleType),
    Imported(Seq<char>),
}

/// What a `Command` holds.
pub enum CommandView {
    CreateModule { name: Seq<char>, module_type: ModuleTypeRefView, params: Seq<Seq<char>> },
    Connect { from: Seq<char>, to: Seq<char> },
    SetParam { module: Seq<char>, param: Seq<char>, value: Seq<char> },
    DefinePatchbay { ports: Seq<PortDefView> },
    Import { import: ImportDefView },
}

/// The text of an optional string.
pub open spec fn option_text(o: Option<String>) -> Option<Seq<char>> {
    match o {
        Some(s) => Some(s@),
        None => None,
    }
}

/// The texts of a vector of numbers.
pub open spec fn number_texts(v: Seq<Number>) -> Seq<Seq<char>> {
    Seq::new(v.len(), |i: int| v[i]@)
}

/// What a vector of port definitions holds.
pub open spec fn port_views(v: Seq<PortDef>) -> Seq<PortDefView> {
    Seq::new(v.len(), |i: int| v[i]@)
}

/// What a vector of commands holds.
pub open spec fn command_views(v: Seq<Command>) -> Seq<CommandView> {
    Seq::new(v.len(), |i: int| v[i]@)
}

impl View for PortDef {
    type V = PortDefView;

    open spec fn view(&self) -> PortDefView {
        PortDefView {
            name: self.name@,
            port_number: self.port_number,
            description: option_text(self.description),
        }
    }
}

impl View for PatchbayDef {
    type V = Seq<PortDefView>;

    open spec fn view(&self) -> Seq<PortDefView> {
        port_views(self.ports@)
    }
}

impl View for ImportDef {
    type V = ImportDefView;

    open spec fn view(&self) -> ImportDefView {
        ImportDefView { path: self.path@, alias: option_text(self.alias) }
    }
}

impl View for ModuleTypeRef {
    type V = ModuleTypeRefView;

    open spec fn view(&self) -> ModuleTypeRefView {
        match self {
            ModuleTypeRef::BuiltIn(t) => ModuleTypeRefView::BuiltIn(*t),
            ModuleTypeRef::Imported(s) => ModuleTypeRefView::Imported(s@),
        }
    }
}

impl View for Command {
    type V = CommandView;

    open spec fn view(&self) -> CommandView {
        match self {
            Command::CreateModule { name, module_type, params } => CommandView::CreateModule {
                name: name@,
                module_type: module_type@,
                params: number_texts(params@),
            },
            Command::Connect { from, to } => CommandView::Connect { from: from@, to: to@ },
            Command::SetParam { module, param, value } => CommandView::SetParam {
                module: module@,
                param: param@,
                value: value@,
            },
            Command::DefinePatchbay { patchbay } => CommandView::DefinePatchbay {
                ports: patchbay@,
            },
            Command::Import { import } => CommandView::Import { import: import@ },
        }
    }
}

impl Command {
    /// A command is valid when its numbers are written as numbers.
    pub open spec fn wf(&self) -> bool {
        match self {
            Command::CreateModule { params, .. } => forall|i: int|
                0 <= i < params.len() ==> (#[trigger] params[i]).wf(),
            Command::SetParam { value, .. } => value.wf(),
            _ => true,
        }
    }
}

/// A copy of a vector of numbers.
pub fn clone_numbers(v: &Vec<Number>) -> (r: Vec<Number>)
    ensures
        number_texts(r@) == number_texts(v@),
        r.len() == v.len(),
        forall|i: int| 0 <= i < v.len() ==> (#[trigger] r[i])@ == v[i]@,
{
    let mut r: Vec<Number> = Vec::new();
    let mut i: usize = 0;
    while i < v.len()
        invariant
            i <= v.len(),
            r.len() == i,
            forall|k: int| 0 <= k < i ==> (#[trigger] r[k])@ == v[k]@,
        decreases v.len() - i,
    {
        r.push(v[i].clone());
        i += 1;
    }
    assert(number_texts(r@) =~= number_texts(v@));
    r
}

/// A copy of an optional string.
pub fn clone_option(o: &Option<String>) -> (r: Option<String>)
    ensures
        option_text(r) == option_text(*o),
{
    match o {
        Some(s) => Some(s.clone()),
        None => None,
    }
}

impl Clone for PortDef {
    fn clone(&self) -> (r: Self)
        ensures
            r@ == self@,
    {
        PortDef {
            name: self.name.clone(),
            port_number: self.port_number,
            description: clone_option(&self.description),
        }
    }
}

impl Clone for PatchbayDef {
    fn clone(&self) -> (r: Self)
        ensures
            r@ == self@,
            r.ports.len() == self.ports.len(),
    {
        let mut ports: Vec<PortDef> = Vec::new();
        let mut i: usize = 0;
        while i < self.ports.len()
            invariant
                i <= self.ports.len(),
                ports.len() == i,
                forall|k: int| 0 <= k < i ==> (#[trigger] ports[k])@ == self.ports[k]@,
            decreases self.ports.len() - i,
        {
            ports.push(self.ports[i].clone());
            i += 1;
        }
        assert(port_views(ports@) =~= port_views(self.ports@));
        PatchbayDef { ports }
    }
}

impl Clone for ImportDef {
    fn clone(&self) -> (r: Self)
        ensures
            r@ == self@,
    {
        ImportDef { path: self.path.clone(), alias: clone_option(&self.alias) }
    }
}

impl Clone for ModuleTypeRef {
    fn clone(&self) -> (r: Self)
        ensures
            r@ == self@,
    {
        match self {
            ModuleTypeRef::BuiltIn(t) => ModuleTypeRef::BuiltIn(*t),
            ModuleTypeRef::Imported(s) => ModuleTypeRef::Imported(s.clone()),
        }
    }
}

impl Clone for Command {
    fn clone(&self) -> (r: Self)
        ensures
            r@ == self@,
            self.wf() ==> r.wf(),
    {
        match self {
            Command::CreateModule { name, module_type, params } => Command::CreateModule {
                name: name.clone(),
                module_type: module_type.clone(),
                params: clone_numbers(params),
            },
            Command::Connect { from, to } => Command::Connect {
                from: from.clone(),
                to: to.clone(),
            },
            Command::SetParam { module, param, value } => Command::SetParam {
                module: module.clone(),
                param: param.clone(),
                value: value.clone(),
            },
            Command::DefinePatchbay { patchbay } => Command::DefinePatchbay {
                patchbay: patchbay.clone(),
            },
            Command::Import { import } => Command::Import { import: import.clone() },
        }
    }
}

/// A copy of a vector of commands.
pub fn clone_commands(v: &Vec<Command>) -> (r: Vec<Command>)
    ensures
        command_views(r@) == command_views(v@),
        r.len() == v.len(),
        forall|i: int| 0 <= i < v.len() ==> (#[trigger] r[i])@ == v[i]@,
        forall|i: int| 0 <= i < v.len() && v[i].wf() ==> (#[trigger] r[i]).wf(),
{
    let mut r: Vec<Command> = Vec::new();
    let mut i: usize = 0;
    while i < v.len()
        invariant
            i <= v.len(),
            r.len() == i,
            forall|k: int| 0 <= k < i ==> (#[trigger] r[k])@ == v[k]@,
            forall|k: int| 0 <= k < i && v[k].wf() ==> (#[trigger] r[k]).wf(),
        decreases v.len() - i,
    {
        r.push(v[i].clone());
        i += 1;
    }
    assert(command_views(r@) =~= command_views(v@));
    r
}

/// What the outcome of reading a line holds.
pub open spec fn outcome_view(r: Result<Command, ParseError>) -> Result<
    CommandView,
    ParseErrorView,
> {
    match r {
        Ok(c) => Ok(c@),
        Err(e) => Err(e@),
    }
}

/// The line without surrounding white space and without a trailing comment,
/// which begins at the first `#` that follows a blank.
pub open spec fn strip_comment(line: Seq<char>) -> Seq<char> {
    let l = trim(line);
    match find(l, " #"@) {
        Some(p) => trim(l.subrange(0, p)),
        None => l,
    }
}

/// Whether a stripped line is blank or a comment.
pub open spec fn is_blank(l: Seq<char>) -> bool {
    l.len() == 0 || l[0] == '#'
}

/// The import that stands behind the word `import`.
pub open spec fn import_of(body: Seq<char>) -> ImportDefView {
    let part = trim(body);
    match find(part, " as "@) {
        Some(p) => ImportDefView {
            path: trim(part.subrange(0, p)),
            alias: Some(trim(part.subrange(p + " as "@.len(), part.len() as int))),
        },
        None => ImportDefView { path: part, alias: None },
    }
}

/// The waveform keywords of the oscillator.
pub open spec fn is_waveform(s: Seq<char>) -> bool {
    s == "sine"@ || s == "saw"@ || s == "square"@ || s == "tri"@ || s == "triangle"@
}

/// The number that stands for a waveform at the head of an oscillator's
/// parameters. It is written with a minus sign, which no frequency is.
pub open spec fn waveform_code(s: Seq<char>) -> Seq<char> {
    if s == "saw"@ {
        "-2"@
    } else if s == "square"@ {
        "-3"@
    } else if s == "tri"@ || s == "triangle"@ {
        "-4"@
    } else {
        "-1"@
    }
}

/// The words of `parts` from position `i` on that are written as numbers.
pub open spec fn numbers_from(parts: Seq<Seq<char>>, i: int) -> Seq<Seq<char>>
    decreases parts.len() - i,
{
    if i < 0 || i >= parts.len() {
        Seq::empty()
    } else if is_number(parts[i]) {
        seq![parts[i]] + numbers_from(parts, i + 1)
    } else {
        numbers_from(parts, i + 1)
    }
}

/// The parameters of a declaration: the numbers among the words behind the
/// type. For an oscillator a waveform keyword may stand first.
pub open spec fn params_of(t: Option<ModuleType>, parts: Seq<Seq<char>>) -> Seq<Seq<char>> {
    if t == Some(ModuleType::Oscillator) && parts.len() > 1 && is_waveform(parts[1]) {
        seq![waveform_code(parts[1])] + numbers_from(parts, 2)
    } else {
        numbers_from(parts, 1)
    }
}

/// The declaration of the module `name` by the words `rest`.
pub open spec fn declaration_of(name: Seq<char>, rest: Seq<char>) -> Result<
    CommandView,
    ParseErrorView,
> {
    let parts = split_whitespace(rest);
    if parts.len() == 0 {
        Err(ParseErrorView::MissingModuleType)
    } else {
        let t = module_type_of(parts[0]);
        Ok(
            CommandView::CreateModule {
                name: name,
                module_type: match t {
                    Some(b) => ModuleTypeRefView::BuiltIn(b),
                    None => ModuleTypeRefView::Imported(parts[0]),
                },
                params: params_of(t, parts),
            },
        )
    }
}

/// The statement with `left` before the arrow and `right` behind it: a
/// parameter assignment where `left` holds a point and `right` is a number,
/// else a connection.
pub open spec fn arrow_statement(left: Seq<char>, right: Seq<char>) -> CommandView {
    match find(left, "."@) {
        Some(d) if is_number(right) => CommandView::SetParam {
            module: left.subrange(0, d),
            param: left.subrange(d + "."@.len(), left.len() as int),
            value: right,
        },
        _ => CommandView::Connect { from: right, to: left },
    }
}

/// What a line of the patch language says.
pub open spec fn parse_line_spec(line: Seq<char>) -> Result<CommandView, ParseErrorView> {
    let l = strip_comment(line);
    if is_blank(l) {
        Err(ParseErrorView::Empty)
    } else if starts_with(l, "import "@) {
        Ok(
            CommandView::Import {
                import: import_of(l.subrange("import "@.len() as int, l.len() as int)),
            },
        )
    } else if l == "patchbay:"@ {
        Ok(CommandView::DefinePatchbay { ports: Seq::empty() })
    } else {
        match find(l, ":"@) {
            Some(c) => declaration_of(
                trim(l.subrange(0, c)),
                l.subrange(c + ":"@.len(), l.len() as int),
            ),
            None => match find(l, "<-"@) {
                Some(a) => Ok(
                    arrow_statement(
                        trim(l.subrange(0, a)),
                        trim(l.subrange(a + "<-"@.len(), l.len() as int)),
                    ),
                ),
                None => Err(ParseErrorView::Unrecognized { line: l }),
            },
        }
    }
}

/// Removes surrounding white space and a trailing comment.
pub fn stripped(line: &Vec<char>) -> (r: Vec<char>)
    ensures
        r@ == strip_comment(line@),
{
    let l = trimmed(line);
    let mark = chars_of(" #");
    match find_in(&l, &mark) {
        Some(p) => {
            let head = slice(&l, 0, p);
            trimmed(&head)
        },
        None => l,
    }
}

/// Tests whether a stripped line is blank or a comment.
pub fn blank(l: &Vec<char>) -> (r: bool)
    ensures
        r == is_blank(l@),
{
    l.len() == 0 || l[0] == '#'
}

/// Reads what stands behind the word `import`.
fn read_import(body: &Vec<char>) -> (r: ImportDef)
    ensures
        r@ == import_of(body@),
{
    let part = trimmed(body);
    let word = chars_of(" as ");
    match find_in(&part, &word) {
        Some(p) => {
            let path = trimmed(&slice(&part, 0, p));
            let alias = trimmed(&slice(&part, p + word.len(), part.len()));
            ImportDef { path: string_from(&path), alias: Some(string_from(&alias)) }
        },
        None => ImportDef { path: string_from(&part), alias: None },
    }
}

/// Tests a word for a waveform keyword.
fn waveform(v: &Vec<char>) -> (r: bool)
    ensures
        r == is_waveform(v@),
{
    is_text(v, "sine") || is_text(v, "saw") || is_text(v, "square") || is_text(v, "tri")
        || is_text(v, "triangle")
}

/// The number that stands for a waveform keyword.
fn waveform_number(v: &Vec<char>) -> (r: Number)
    ensures
        r@ == waveform_code(v@),
        r.wf(),
{
    let code = if is_text(v, "saw") {
        "-2"
    } else if is_text(v, "square") {
        "-3"
    } else if is_text(v, "tri") || is_text(v, "triangle") {
        "-4"
    } else {
        "-1"
    };
    proof {
        reveal_strlit("-1");
        reveal_strlit("-2");
        reveal_strlit("-3");
        reveal_strlit("-4");
        crate::number::lemma_signed_digit(code@);
    }
    Number { text: String::from_str(code) }
}

/// Collects the numbers among `parts[from..]` behind those in `params`.
fn collect_numbers(parts: &Vec<Vec<char>>, from: usize, params: &mut Vec<Number>)
    requires
        from <= parts.len(),
        forall|i: int| 0 <= i < old(params).len() ==> (#[trigger] old(params)[i]).wf(),
    ensures
        number_texts(final(params)@) == number_texts(old(params)@) + numbers_from(
            texts(parts@),
            from as int,
        ),
        forall|i: int| 0 <= i < final(params).len() ==> (#[trigger] final(params)[i]).wf(),
{
    let ghost all = texts(parts@);
    let ghost before = number_texts(params@);
    let mut i: usize = from;
    assert(before + Seq::<Seq<char>>::empty() =~= before);
    while i < parts.len()
        invariant
            from <= i <= parts.len(),
            all == texts(parts@),
            number_texts(params@) + numbers_from(all, i as int) == before + numbers_from(
                all,
                from as int,
            ),
            forall|k: int| 0 <= k < params.len() ==> (#[trigger] params[k]).wf(),
        decreases parts.len() - i,
    {
        let ghost so_far = number_texts(params@);
        match Number::read(&parts[i]) {
            Some(n) => {
                params.push(n);
                assert(number_texts(params@) =~= so_far + seq![all[i as int]]);
                assert(so_far + (seq![all[i as int]] + numbers_from(all, i + 1)) =~= so_far
                    + seq![all[i as int]] + numbers_from(all, i + 1));
            },
            None => {},
        }
        i += 1;
    }
    assert(number_texts(params@) + Seq::<Seq<char>>::empty() =~= number_texts(params@));
}

/// Reads the declaration of the module `name` from the words `rest`.
fn read_declaration(name: &Vec<char>, rest: &Vec<char>) -> (r: Result<Command, ParseError>)
    ensures
        outcome_view(r) == declaration_of(name@, rest@),
        r is Ok ==> r->Ok_0.wf(),
{
    let parts = words_of(rest);
    if parts.len() == 0 {
        return Err(ParseError::MissingModuleType);
    }
    let ghost all = texts(parts@);
    let t = module_type_from(&parts[0]);
    let mut params: Vec<Number> = Vec::new();
    assert(number_texts(params@) =~= Seq::<Seq<char>>::empty());
    let oscillator = match t {
        Some(b) => b == ModuleType::Oscillator,
        None => false,
    };
    if oscillator && parts.len() > 1 && waveform(&parts[1]) {
        params.push(waveform_number(&parts[1]));
        assert(number_texts(params@) =~= seq![waveform_code(all[1])]);
        collect_numbers(&parts, 2, &mut params);
    } else {
        collect_numbers(&parts, 1, &mut params);
        assert(Seq::<Seq<char>>::empty() + numbers_from(all, 1) =~= numbers_from(all, 1));
    }
    let module_type = match t {
        Some(b) => ModuleTypeRef::BuiltIn(b),
        None => ModuleTypeRef::Imported(string_from(&parts[0])),
    };
    Ok(Command::CreateModule { name: string_from(name), module_type, params })
}

/// Reads the statement around an arrow.
fn read_arrow(left: &Vec<char>, right: &Vec<char>) -> (r: Command)
    ensures
        r@ == arrow_statement(left@, right@),
        r.wf(),
{
    let point = chars_of(".");
    match find_in(left, &point) {
        Some(d) => {
            match Number::read(right) {
                Some(value) => {
                    return Command::SetParam {
                        module: string_from(&slice(left, 0, d)),
                        param: string_from(&slice(left, d + point.len(), left.len())),
                        value,
                    };
                },
                None => {},
            }
        },
        None => {},
    }
    Command::Connect { from: string_from(right), to: string_from(left) }
}

/// Reads a line given as characters.
pub fn parse_chars(line: &Vec<char>) -> (r: Result<Command, ParseError>)
    ensures
        outcome_view(r) == parse_line_spec(line@),
        r is Ok ==> r->Ok_0.wf(),
{
    let l = stripped(line);
    if blank(&l) {
        return Err(ParseError::Empty);
    }
    let import = chars_of("import ");
    if begins_with(&l, &import) {
        let body = slice(&l, import.len(), l.len());
        return Ok(Command::Import { import: read_import(&body) });
    }
    if is_text(&l, "patchbay:") {
        let ports: Vec<PortDef> = Vec::new();
        assert(port_views(ports@) =~= Seq::<PortDefView>::empty());
        return Ok(Command::DefinePatchbay { patchbay: PatchbayDef { ports } });
    }
    let colon = chars_of(":");
    match find_in(&l, &colon) {
        Some(c) => {
            let name = trimmed(&slice(&l, 0, c));
            let rest = slice(&l, c + colon.len(), l.len());
            read_declaration(&name, &rest)
        },
        None => {
            let arrow = chars_of("<-");
            match find_in(&l, &arrow) {
                Some(a) => {
                    let left = trimmed(&slice(&l, 0, a));
                    let right = trimmed(&slice(&l, a + arrow.len(), l.len()));
                    Ok(read_arrow(&left, &right))
                },
                None => Err(ParseError::Unrecognized { line: string_from(&l) }),
            }
        },
    }
}

/// Reads one line of the patch language.
///
/// A blank line or a comment gives `ParseError::Empty`, a declaration without
/// a type `ParseError::MissingModuleType`, and a line with neither a colon nor
/// an arrow `ParseError::Unrecognized`, which holds the line.
pub fn parse_line(line: &str) -> (r: Result<Command, ParseError>)
    ensures
        outcome_view(r) == parse_line_spec(line@),
        r is Ok ==> r->Ok_0.wf(),
{
    let v = chars_of(line);
    parse_chars(&v)
}

/// The texts of a list of lines.
pub open spec fn line_texts(lines: Seq<&str>) -> Seq<Seq<char>> {
    Seq::new(lines.len(), |i: int| lines[i]@)
}

/// Whether a line belongs to a patchbay block: it is indented by two blanks
/// and not blank.
pub open spec fn is_port_line(raw: Seq<char>) -> bool {
    trim(raw).len() > 0 && starts_with(raw, "  "@)
}

/// The port that a line of a patchbay block defines: `name: port number`,
/// with a description behind it or none.
pub open spec fn port_of(raw: Seq<char>) -> Option<PortDefView> {
    let line = trim(raw);
    match find(line, ":"@) {
        None => None,
        Some(c) => {
            let rest = trim(line.subrange(c + ":"@.len(), line.len() as int));
            match find(rest, "port "@) {
                None => None,
                Some(p) => {
                    let parts = split_whitespace(
                        rest.subrange(p + "port "@.len(), rest.len() as int),
                    );
                    if parts.len() == 0 {
                        None
                    } else {
                        match crate::number::u32_of(parts[0]) {
                            None => None,
                            Some(n) => Some(
                                PortDefView {
                                    name: trim(line.subrange(0, c)),
                                    port_number: n,
                                    description: if parts.len() > 1 {
                                        Some(join(parts.subrange(1, parts.len() as int), " "@))
                                    } else {
                                        None
                                    },
                                },
                            ),
                        }
                    }
                },
            }
        },
    }
}

/// The first line at or after `i` that does not belong to the patchbay block.
pub open spec fn block_end(lines: Seq<Seq<char>>, i: int) -> int
    decreases lines.len() - i,
{
    if 0 <= i < lines.len() && is_port_line(lines[i]) {
        block_end(lines, i + 1)
    } else {
        i
    }
}

/// The ports that the lines from `i` up to `end` define.
pub open spec fn ports_between(lines: Seq<Seq<char>>, i: int, end: int) -> Seq<PortDefView>
    decreases end - i,
{
    if i < 0 || i >= end || i >= lines.len() {
        Seq::empty()
    } else {
        match port_of(lines[i]) {
            Some(p) => seq![p] + ports_between(lines, i + 1, end),
            None => ports_between(lines, i + 1, end),
        }
    }
}

/// The statements of the lines from `i` on. Blank lines, comments and lines
/// that are no statement are passed over; a patchbay header takes the
/// indented lines behind it.
pub open spec fn commands_from(lines: Seq<Seq<char>>, i: int) -> Seq<CommandView>
    decreases lines.len() - i,
{
    if i < 0 || i >= lines.len() {
        Seq::empty()
    } else {
        let line = trim(lines[i]);
        if is_blank(line) {
            commands_from(lines, i + 1)
        } else if line == "patchbay:"@ {
            let end = block_end(lines, i + 1);
            let block = CommandView::DefinePatchbay { ports: ports_between(lines, i + 1, end) };
            if i < end <= lines.len() {
                seq![block] + commands_from(lines, end)
            } else {
                seq![block]
            }
        } else {
            match parse_line_spec(line) {
                Ok(c) => seq![c] + commands_from(lines, i + 1),
                Err(_) => commands_from(lines, i + 1),
            }
        }
    }
}

/// The end of a patchbay block is not before its beginning.
pub proof fn lemma_block_end_bounds(lines: Seq<Seq<char>>, i: int)
    requires
        0 <= i <= lines.len(),
    ensures
        i <= block_end(lines, i) <= lines.len(),
    decreases lines.len() - i,
{
    if i < lines.len() && is_port_line(lines[i]) {
        lemma_block_end_bounds(lines, i + 1);
    }
}

/// Tests whether a line belongs to a patchbay block.
fn port_line(raw: &Vec<char>) -> (r: bool)
    ensures
        r == is_port_line(raw@),
{
    let indent = chars_of("  ");
    trimmed(raw).len() > 0 && begins_with(raw, &indent)
}

/// Reads the port that a line of a patchbay block defines.
fn read_port(raw: &Vec<char>) -> (r: Option<PortDef>)
    ensures
        match r {
            Some(p) => port_of(raw@) == Some(p@),
            None => port_of(raw@) is None,
        },
{
    let line = trimmed(raw);
    let colon = chars_of(":");
    let c = match find_in(&line, &colon) {
        Some(c) => c,
        None => {
            return None;
        },
    };
    let rest = trimmed(&slice(&line, c + colon.len(), line.len()));
    let keyword = chars_of("port ");
    let p = match find_in(&rest, &keyword) {
        Some(p) => p,
        None => {
            return None;
        },
    };
    let parts = words_of(&slice(&rest, p + keyword.len(), rest.len()));
    if parts.len() == 0 {
        return None;
    }
    let n = match crate::number::read_u32(&parts[0]) {
        Some(n) => n,
        None => {
            return None;
        },
    };
    let description = if parts.len() > 1 {
        let blank = chars_of(" ");
        Some(string_from(&joined(&parts, 1, &blank)))
    } else {
        None
    };
    Some(PortDef { name: string_from(&trimmed(&slice(&line, 0, c))), port_number: n, description })
}

/// Reads the patchbay block whose header is `lines[start]`: the command it
/// makes, and the index of the first line behind the block.
fn parse_patchbay_block(lines: &Vec<Vec<char>>, start: usize) -> (r: (Command, usize))
    requires
        start < lines.len(),
    ensures
        r.0@ == (CommandView::DefinePatchbay {
            ports: ports_between(texts(lines@), start + 1, r.1 as int),
        }),
        r.1 == block_end(texts(lines@), start + 1),
        start < r.1 <= lines.len(),
        r.0.wf(),
{
    let ghost all = texts(lines@);
    let mut ports: Vec<PortDef> = Vec::new();
    let mut i: usize = start + 1;
    let ghost end = block_end(all, start + 1);
    proof {
        lemma_block_end_bounds(all, start + 1);
        lemma_ports_split(all, start + 1, start + 1, end);
    }
    assert(port_views(ports@) =~= Seq::<PortDefView>::empty());
    let mut more = true;
    while more && i < lines.len()
        invariant
            start < i <= lines.len(),
            all == texts(lines@),
            end == block_end(all, i as int),
            i <= end <= lines.len(),
            !more ==> i == end,
            port_views(ports@) == ports_between(all, start + 1, i as int),
        decreases lines.len() - i + if more { 1int } else { 0int },
    {
        let raw = &lines[i];
        assert(raw@ == all[i as int]);
        if !port_line(raw) {
            more = false;
        } else {
            let ghost before = port_views(ports@);
            proof {
                lemma_ports_split(all, start + 1, i as int, i + 1);
                assert(ports_between(all, i + 1, i + 1) =~= Seq::<PortDefView>::empty());
                assert(block_end(all, i as int) == block_end(all, i + 1));
                lemma_block_end_bounds(all, i + 1);
            }
            match read_port(raw) {
                Some(p) => {
                    ports.push(p);
                    assert(port_views(ports@) =~= before.push(p@));
                    assert(before + (seq![p@] + Seq::<PortDefView>::empty()) =~= before.push(
                        p@,
                    ));
                },
                None => {
                    assert(before + Seq::<PortDefView>::empty() =~= before);
                },
            }
            i += 1;
        }
    }
    (Command::DefinePatchbay { patchbay: PatchbayDef { ports } }, i)
}

/// The ports of a run of lines are those of its first part followed by those
/// of its second part.
pub proof fn lemma_ports_split(lines: Seq<Seq<char>>, i: int, mid: int, end: int)
    requires
        0 <= i <= mid <= end <= lines.len(),
    ensures
        ports_between(lines, i, end) == ports_between(lines, i, mid) + ports_between(
            lines,
            mid,
            end,
        ),
    decreases mid - i,
{
    if i == mid {
        assert(ports_between(lines, i, mid) =~= Seq::<PortDefView>::empty());
        assert(Seq::<PortDefView>::empty() + ports_between(lines, mid, end) =~= ports_between(
            lines,
            mid,
            end,
        ));
    } else {
        lemma_ports_split(lines, i + 1, mid, end);
        match port_of(lines[i]) {
            Some(p) => {
                assert(seq![p] + (ports_between(lines, i + 1, mid) + ports_between(
                    lines,
                    mid,
                    end,
                )) =~= (seq![p] + ports_between(lines, i + 1, mid)) + ports_between(
                    lines,
                    mid,
                    end,
                ));
            },
            None => {},
        }
    }
}

/// Reads the lines of a patch, given as characters.
pub fn parse_char_lines(lines: &Vec<Vec<char>>) -> (r: Vec<Command>)
    ensures
        command_views(r@) == commands_from(texts(lines@), 0),
        forall|i: int| 0 <= i < r.len() ==> (#[trigger] r[i]).wf(),
{
    let ghost all = texts(lines@);
    let mut commands: Vec<Command> = Vec::new();
    let mut i: usize = 0;
    assert(command_views(commands@) =~= Seq::<CommandView>::empty());
    assert(Seq::<CommandView>::empty() + commands_from(all, 0) =~= commands_from(all, 0));
    while i < lines.len()
        invariant
            i <= lines.len(),
            all == texts(lines@),
            command_views(commands@) + commands_from(all, i as int) == commands_from(all, 0),
            forall|k: int| 0 <= k < commands.len() ==> (#[trigger] commands[k]).wf(),
        decreases lines.len() - i,
    {
        assert(lines[i as int]@ == all[i as int]);
        let line = trimmed(&lines[i]);
        let ghost before = command_views(commands@);
        if blank(&line) {
            i += 1;
        } else if is_text(&line, "patchbay:") {
            let (block, end) = parse_patchbay_block(lines, i);
            let ghost rest = commands_from(all, end as int);
            commands.push(block);
            assert(command_views(commands@) =~= before.push(block@));
            assert(before + (seq![block@] + rest) =~= before.push(block@) + rest);
            i = end;
        } else {
            match parse_chars(&line) {
                Ok(c) => {
                    let ghost rest = commands_from(all, i + 1);
                    commands.push(c);
                    assert(command_views(commands@) =~= before.push(c@));
                    assert(before + (seq![c@] + rest) =~= before.push(c@) + rest);
                },
                Err(_) => {},
            }
            i += 1;
        }
    }
    assert(command_views(commands@) + Seq::<CommandView>::empty() =~= command_views(commands@));
    commands
}

/// Reads the lines of a patch. Blank lines, comments and lines that are no
/// statement are passed over; a `patchbay:` header takes the indented lines
/// behind it as its ports. The result is always `Ok`.
pub fn parse_lines(lines: &[&str]) -> (r: Result<Vec<Command>, ParseError>)
    ensures
        r is Ok,
        command_views(r->Ok_0@) == commands_from(line_texts(lines@), 0),
        forall|i: int| 0 <= i < r->Ok_0.len() ==> (#[trigger] r->Ok_0[i]).wf(),
{
    let mut all: Vec<Vec<char>> = Vec::new();
    let mut i: usize = 0;
    while i < lines.len()
        invariant
            i <= lines.len(),
            all.len() == i,
            forall|k: int| 0 <= k < i ==> (#[trigger] all[k])@ == lines[k]@,
        decreases lines.len() - i,
    {
        all.push(chars_of(lines[i]));
        i += 1;
    }
    assert(texts(all@) =~= line_texts(lines@));
    Ok(parse_char_lines(&all))
}

/// `s` without a carriage return at its end.
pub open spec fn without_return(s: Seq<char>) -> Seq<char> {
    if s.len() > 0 && s.last() == '\r' {
        s.drop_last()
    } else {
        s
    }
}

/// The lines of a text: what stands before each of its line feeds, without
/// a carriage return before the line feed, and what stands behind the last
/// line feed, if anything does.
pub open spec fn lines_of(s: Seq<char>) -> Seq<Seq<char>>
    decreases s.len(),
{
    if s.len() == 0 {
        Seq::empty()
    } else {
        match find(s, "\n"@) {
            Some(p) => if 0 <= p < s.len() {
                seq![without_return(s.subrange(0, p))] + lines_of(
                    s.subrange(p + 1, s.len() as int),
                )
            } else {
                Seq::empty()
            },
            None => seq![s],
        }
    }
}

/// Splits a text into its lines.
pub fn split_lines(v: &Vec<char>) -> (r: Vec<Vec<char>>)
    ensures
        texts(r@) == lines_of(v@),
{
    let mut lines: Vec<Vec<char>> = Vec::new();
    let mut start: usize = 0;
    let mut i: usize = 0;
    proof {
        reveal_strlit("\n");
    }
    assert(texts(lines@) =~= Seq::<Seq<char>>::empty());
    assert(v@.subrange(0, v.len() as int) == v@);
    assert(Seq::<Seq<char>>::empty() + lines_of(v@) =~= lines_of(v@));
    while i < v.len()
        invariant
            start <= i <= v.len(),
            "\n"@ == seq!['\n'],
            texts(lines@) + lines_of(v@.subrange(start as int, v.len() as int)) == lines_of(v@),
            forall|k: int| start <= k < i ==> v@[k] != '\n',
        decreases v.len() - i,
    {
        if v[i] == '\n' {
            let ghost rest = v@.subrange(start as int, v.len() as int);
            let ghost before = texts(lines@);
            proof {
                lemma_first_feed(rest, i - start);
                assert(rest.subrange(0, i - start) =~= v@.subrange(start as int, i as int));
                assert(rest.subrange(i - start + 1, rest.len() as int) =~= v@.subrange(
                    i + 1,
                    v.len() as int,
                ));
            }
            let mut line = slice(v, start, i);
            if line.len() > 0 && line[line.len() - 1] == '\r' {
                line.pop();
                assert(line@ =~= without_return(v@.subrange(start as int, i as int)));
            }
            lines.push(line);
            assert(texts(lines@) =~= before.push(line@));
            assert(before + (seq![line@] + lines_of(v@.subrange(i + 1, v.len() as int)))
                =~= before.push(line@) + lines_of(v@.subrange(i + 1, v.len() as int)));
            start = i + 1;
        }
        i += 1;
    }
    if start < v.len() {
        let ghost rest = v@.subrange(start as int, v.len() as int);
        let ghost before = texts(lines@);
        proof {
            lemma_no_feed(rest, 0);
        }
        let line = slice(v, start, v.len());
        lines.push(line);
        assert(texts(lines@) =~= before.push(line@));
    } else {
        assert(texts(lines@) + Seq::<Seq<char>>::empty() =~= texts(lines@));
    }
    lines
}

/// The first line feed of a text is found where it stands.
pub proof fn lemma_first_feed(s: Seq<char>, p: int)
    requires
        "\n"@ == seq!['\n'],
        0 <= p < s.len(),
        s[p] == '\n',
        forall|k: int| 0 <= k < p ==> s[k] != '\n',
    ensures
        find(s, "\n"@) == Some(p),
{
    lemma_feed_from(s, p, 0);
}

/// The first line feed at or after `i` is found where it stands.
pub proof fn lemma_feed_from(s: Seq<char>, p: int, i: int)
    requires
        "\n"@ == seq!['\n'],
        0 <= i <= p < s.len(),
        s[p] == '\n',
        forall|k: int| i <= k < p ==> s[k] != '\n',
    ensures
        crate::text::find_from(s, "\n"@, i) == Some(p),
    decreases p - i,
{
    if i < p {
        assert(s.subrange(i, i + 1)[0] == s[i]);
        lemma_feed_from(s, p, i + 1);
    } else {
        assert(s.subrange(p, p + 1) =~= seq!['\n']);
    }
}

/// A text without a line feed has none to be found.
pub proof fn lemma_no_feed(s: Seq<char>, i: int)
    requires
        "\n"@ == seq!['\n'],
        0 <= i <= s.len(),
        forall|k: int| i <= k < s.len() ==> s[k] != '\n',
    ensures
        crate::text::find_from(s, "\n"@, i) is None,
    decreases s.len() - i,
{
    if i < s.len() {
        assert(s.subrange(i, i + 1)[0] == s[i]);
        lemma_no_feed(s, i + 1);
    }
}

/// Reads a patch given as one text.
pub fn parse_source(content: &str) -> (r: Vec<Command>)
    ensures
        command_views(r@) == commands_from(lines_of(content@), 0),
        forall|i: int| 0 <= i < r.len() ==> (#[trigger] r[i]).wf(),
{
    let lines = split_lines(&chars_of(content));
    parse_char_lines(&lines)
}

} // verus!
