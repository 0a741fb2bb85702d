//! Parser for the directive language of the configuration file.
//!
//! A configuration is a block: a run of directives. A directive is a name,
//! parameters (bare, or between single or double quotes), and then either a
//! `;` or a nested block between braces.

use crate::text::{numeric, trimmed};
use vstd::prelude::*;

verus! {

/// How a parameter was written.
#[derive(Debug, Clone, Copy, PartialEq, Eq, Structural)]
pub enum ParameterType {
    SingleQuote,
    DoubleQuote,
    Simple,
}

/// A directive: a name, its parameters in the order in which they are
/// written, and the block that follows them, if one does.
#[derive(Debug)]
pub struct Directive {
    pub name: String,
    pub parameters: Vec<(ParameterType, String)>,
    pub block: Option<Block>,
}

/// A block: directives in the order in which they are written.
#[derive(Debug)]
pub struct Block {
    pub directives: Vec<Directive>,
}

/// The mathematical content of a [`Directive`].
pub struct DirectiveView {
    pub name: Seq<char>,
    pub parameters: Seq<(ParameterType, Seq<char>)>,
    pub block: Option<BlockView>,
}

/// The mathematical content of a [`Block`].
pub struct BlockView {
    pub directives: Seq<DirectiveView>,
}

/// The parameters of a directive as plain values.
pub open spec fn parameters_view(v: Seq<(ParameterType, String)>) -> Seq<(ParameterType, Seq<char>)> {
    Seq::new(v.len(), |i: int| (v[i].0, v[i].1@))
}

/// The content of a directive: its name, its parameters and its block.
pub open spec fn directive_view(d: Directive) -> DirectiveView
    decreases d,
{
    DirectiveView {
        name: d.name@,
        parameters: parameters_view(d.parameters@),
        block: match d.block {
            Some(b) => Some(block_view(b)),
            None => None,
        },
    }
}

/// The content of a block: the contents of its directives, in their order.
pub open spec fn block_view(b: Block) -> BlockView
    decreases b,
{
    BlockView {
        directives: Seq::new(
            b.directives.len() as nat,
            |i: int|
                if 0 <= i < b.directives.len() {
                    directive_view(b.directives[i])
                } else {
                    arbitrary()
                },
        ),
    }
}

impl View for Directive {
    type V = DirectiveView;

    open spec fn view(&self) -> DirectiveView {
        directive_view(*self)
    }
}

impl View for Block {
    type V = BlockView;

    open spec fn view(&self) -> BlockView {
        block_view(*self)
    }
}

/// Why a text is not a directive or a block.
#[derive(Debug, Clone, Copy, PartialEq, Eq, Structural)]
pub enum SyntaxError {
    /// There is no text to read a directive from.
    Empty,
    /// A directive's name starts with this numeric character.
    Number(char),
    /// The text ended inside a block that no `}` closes.
    Unclosed,
}

/// Where the scan of a directive stands.
#[derive(Debug, Clone, Copy, PartialEq, Eq, Structural)]
pub enum Phase {
    /// In the name, or before it.
    Name,
    /// After the name or a parameter, before the next parameter.
    Between,
    /// Inside a parameter written in this way.
    Value(ParameterType),
}

/// What the scan of a directive has gathered so far.
pub struct Scan {
    pub phase: Phase,
    pub name: Seq<char>,
    pub parameters: Seq<(ParameterType, Seq<char>)>,
    pub value: Seq<char>,
}

/// What one character does to a scan.
pub enum Step {
    /// The scan goes on.
    Next(Scan),
    /// The character ends the directive.
    End(Scan),
    /// The character opens the directive's block.
    Open(Scan),
    /// The character cannot stand here.
    Reject,
}

/// The scan before the first character.
pub open spec fn start() -> Scan {
    Scan { phase: Phase::Name, name: Seq::empty(), parameters: Seq::empty(), value: Seq::empty() }
}

/// Whether `c` ends a parameter written as `kind`.
pub open spec fn closes(kind: ParameterType, c: char) -> bool {
    match kind {
        ParameterType::SingleQuote => c == '\'',
        ParameterType::DoubleQuote => c == '"',
        ParameterType::Simple => c == ' ' || c == '\t',
    }
}

/// The transition of the directive scan on the character `c`, of which
/// `is_number` says whether it is numeric.
///
/// Before the name, line ends and spaces are skipped and a numeric character
/// is refused. A space ends the name. A `;` ends the directive wherever it
/// stands, even between quotes. Between parameters a space is skipped, `{`
/// opens the block, a quote starts a quoted parameter and any other character
/// starts a bare one.
pub open spec fn step(s: Scan, c: char, is_number: bool) -> Step {
    match s.phase {
        Phase::Name => if s.name.len() == 0 {
            if is_number {
                Step::Reject
            } else if c == '\n' || c == '\r' || c == ' ' {
                Step::Next(s)
            } else {
                Step::Next(Scan { name: s.name.push(c), ..s })
            }
        } else if c == ' ' {
            Step::Next(Scan { phase: Phase::Between, ..s })
        } else if c == ';' {
            Step::End(s)
        } else {
            Step::Next(Scan { name: s.name.push(c), ..s })
        },
        Phase::Between => if c == ';' {
            Step::End(s)
        } else if c == ' ' {
            Step::Next(s)
        } else if c == '{' {
            Step::Open(s)
        } else if c == '\'' {
            Step::Next(Scan { phase: Phase::Value(ParameterType::SingleQuote), ..s })
        } else if c == '"' {
            Step::Next(Scan { phase: Phase::Value(ParameterType::DoubleQuote), ..s })
        } else {
            Step::Next(Scan { phase: Phase::Value(ParameterType::Simple), value: seq![c], ..s })
        },
        Phase::Value(kind) => if c == ';' {
            Step::End(
                Scan {
                    phase: Phase::Between,
                    parameters: s.parameters.push((kind, s.value)),
                    value: Seq::empty(),
                    ..s
                },
            )
        } else if closes(kind, c) {
            Step::Next(
                Scan {
                    phase: Phase::Between,
                    parameters: s.parameters.push((kind, s.value)),
                    value: Seq::empty(),
                    ..s
                },
            )
        } else {
            Step::Next(Scan { value: s.value.push(c), ..s })
        },
    }
}

/// The directive that a scan yields, with the block given.
pub open spec fn gathered(s: Scan, block: Option<BlockView>) -> DirectiveView {
    DirectiveView { name: s.name, parameters: s.parameters, block }
}

/// Whether a block skips `c` between its directives.
pub open spec fn skipped(c: char) -> bool {
    c == ' ' || c == '\t' || c == '\n'
}

/// The index of the first character of `s`, from `from` on, that a block does
/// not skip; the length of `s` where there is none.
pub open spec fn significant(s: Seq<char>, from: nat) -> nat
    decreases s.len() - from,
{
    if from >= s.len() {
        s.len()
    } else if skipped(s[from as int]) {
        significant(s, from + 1)
    } else {
        from
    }
}

/// The text from which a block goes on after a directive that left the text
/// `after`, of which `trimmed` is what is left without the whitespace at
/// its ends: none where that is nothing.
pub open spec fn onward(after: Seq<char>, trimmed: Seq<char>) -> Option<Seq<char>> {
    if trimmed.len() == 0 {
        None
    } else {
        Some(after)
    }
}

/// The directive read from `input`, from its character `i` on, with `s`
/// gathered before; and the text that follows it.
///
/// A parameter that the end of the text cuts short is dropped. A block must be
/// closed: the `}` that ends it is consumed here.
pub open spec fn directive_from(input: Seq<char>, i: nat, s: Scan) -> Result<
    (DirectiveView, Seq<char>),
    SyntaxError,
>
    decreases input.len(), 0nat, input.len() - i,
{
    if i >= input.len() {
        Ok((gathered(s, None), Seq::empty()))
    } else {
        match step(s, input[i as int], numeric(input[i as int])) {
            Step::Next(t) => directive_from(input, i + 1, t),
            Step::End(t) => Ok((gathered(t, None), input.skip(i as int + 1))),
            Step::Open(t) => match block_from(input.skip(i as int + 1), Seq::empty()) {
                Ok((b, rest)) => if rest.len() == 0 {
                    Err(SyntaxError::Unclosed)
                } else {
                    Ok((gathered(t, Some(b)), rest.skip(1)))
                },
                Err(e) => Err(e),
            },
            Step::Reject => Err(SyntaxError::Number(input[i as int])),
        }
    }
}

/// The block read from `rest`, after the directives `done`; and the text
/// that follows it, which starts with the `}` that ended the block or is
/// empty.
///
/// A text in which only whitespace follows a directive ends the block, and
/// so does one that holds nothing but skipped characters. The test on the
/// lengths never fails (`lemma_block_goes_on`): it is there for the
/// recursion to be well founded.
pub open spec fn block_from(rest: Seq<char>, done: Seq<DirectiveView>) -> Result<
    (BlockView, Seq<char>),
    SyntaxError,
>
    decreases rest.len(), 1nat, 0nat,
{
    let k = significant(rest, 0);
    if k >= rest.len() {
        Ok((BlockView { directives: done }, Seq::empty()))
    } else if rest[k as int] == '}' {
        Ok((BlockView { directives: done }, rest.skip(k as int)))
    } else {
        match directive_from(rest, 0, start()) {
            Ok((d, after)) => match onward(after, trimmed(after)) {
                None => Ok((BlockView { directives: done.push(d) }, Seq::empty())),
                Some(next) => if next.len() < rest.len() {
                    block_from(next, done.push(d))
                } else {
                    Err(SyntaxError::Unclosed)
                },
            },
            Err(e) => Err(e),
        }
    }
}

/// What [`parse_directive`] returns on `input`.
pub open spec fn directive_spec(input: Seq<char>) -> Result<(DirectiveView, Seq<char>), SyntaxError> {
    if input.len() == 0 {
        Err(SyntaxError::Empty)
    } else {
        directive_from(input, 0, start())
    }
}

/// What [`parse`] returns on `input`.
pub open spec fn parse_spec(input: Seq<char>) -> Result<BlockView, SyntaxError> {
    match block_from(input, Seq::empty()) {
        Ok((b, _)) => Ok(b),
        Err(e) => Err(e),
    }
}

/// A directive leaves less text than it was read from, and a block leaves no
/// more.
pub proof fn lemma_directive_shortens(input: Seq<char>, i: nat, s: Scan)
    requires
        i <= input.len(),
    ensures
        match directive_from(input, i, s) {
            Ok((_, after)) => after.len() <= input.len() - i && (i < input.len() ==> after.len()
                < input.len() - i),
            Err(_) => true,
        },
    decreases input.len(), 0nat, input.len() - i,
{
    if i < input.len() {
        match step(s, input[i as int], numeric(input[i as int])) {
            Step::Next(t) => {
                lemma_directive_shortens(input, i + 1, t);
            },
            Step::Open(_) => {
                lemma_block_shortens(input.skip(i as int + 1), Seq::empty());
            },
            _ => {},
        }
    }
}

/// A block leaves no more text than it was read from.
pub proof fn lemma_block_shortens(rest: Seq<char>, done: Seq<DirectiveView>)
    ensures
        match block_from(rest, done) {
            Ok((_, after)) => after.len() <= rest.len(),
            Err(_) => true,
        },
    decreases rest.len(), 1nat, 0nat,
{
    let k = significant(rest, 0);
    if k < rest.len() && rest[k as int] != '}' {
        lemma_directive_shortens(rest, 0, start());
        match directive_from(rest, 0, start()) {
            Ok((d, after)) => {
                if trimmed(after).len() != 0 {
                    lemma_block_shortens(after, done.push(d));
                }
            },
            Err(_) => {},
        }
    }
}

/// After a directive that leaves more than whitespace, a block goes on from
/// the text that the directive left: the test on the lengths in
/// [`block_from`] never fails.
pub proof fn lemma_block_goes_on(rest: Seq<char>, done: Seq<DirectiveView>)
    requires
        significant(rest, 0) < rest.len(),
        rest[significant(rest, 0) as int] != '}',
    ensures
        match directive_from(rest, 0, start()) {
            Ok((d, after)) => block_from(rest, done) == match onward(after, trimmed(after)) {
                None => Ok((BlockView { directives: done.push(d) }, Seq::empty())),
                Some(next) => block_from(next, done.push(d)),
            },
            Err(e) => block_from(rest, done) == Err::<(BlockView, Seq<char>), SyntaxError>(e),
        },
{
    lemma_directive_shortens(rest, 0, start());
}

/// The contents of the directives of a list, in their order.
pub open spec fn directives_view(directives: Seq<Directive>) -> Seq<DirectiveView> {
    Seq::new(directives.len(), |i: int| directives[i]@)
}

/// A block's view holds the views of its directives, in their order, and a
/// directive's view the views of its parts.
pub proof fn lemma_views(b: Block)
    ensures
        b@.directives == directives_view(b.directives@),
        forall|i: int|
            0 <= i < b.directives@.len() ==> {
                let d = #[trigger] b.directives@[i];
                &&& d@.name == d.name@
                &&& d@.parameters == parameters_view(d.parameters@)
                &&& d.block is Some ==> d@.block == Some(d.block.unwrap()@)
                &&& d.block is None ==> d@.block is None
            },
{
    assert(b@.directives =~= directives_view(b.directives@));
}

/// A directive while it is read, character by character.
pub struct Scanner {
    phase: Phase,
    name: String,
    parameters: Vec<(ParameterType, String)>,
    value: String,
}

/// What the character just read asks for.
#[derive(Debug, Clone, Copy, PartialEq, Eq, Structural)]
pub enum Signal {
    /// To go on with the next character.
    Next,
    /// To end the directive here.
    End,
    /// To read the directive's block from the next character on.
    Open,
    /// To refuse the text.
    Reject,
}

impl View for Scanner {
    type V = Scan;

    closed spec fn view(&self) -> Scan {
        Scan {
            phase: self.phase,
            name: self.name@,
            parameters: parameters_view(self.parameters@),
            value: self.value@,
        }
    }
}

impl Scanner {
    /// A scanner that has read nothing.
    pub fn new() -> (r: Scanner)
        ensures
            r@ == start(),
    {
        let r = Scanner {
            phase: Phase::Name,
            name: String::new(),
            parameters: Vec::new(),
            value: String::new(),
        };
        assert(parameters_view(r.parameters@) =~= Seq::empty());
        r
    }

    /// Moves the parameter being read to the list of parameters.
    fn close(&mut self, kind: ParameterType)
        ensures
            final(self)@ == (Scan {
                phase: Phase::Between,
                parameters: old(self)@.parameters.push((kind, old(self)@.value)),
                value: Seq::empty(),
                ..old(self)@
            }),
    {
        let mut value = String::new();
        std::mem::swap(&mut value, &mut self.value);
        self.parameters.push((kind, value));
        self.phase = Phase::Between;
        assert(parameters_view(self.parameters@) =~= parameters_view(old(self).parameters@).push(
            (kind, old(self).value@),
        ));
    }

    /// Takes the character `c`, of which `is_number` says whether it is
    /// numeric. After [`Signal::Reject`] the scanner is as it was.
    pub fn feed(&mut self, c: char, is_number: bool) -> (r: Signal)
        ensures
            step(old(self)@, c, is_number) == match r {
                Signal::Next => Step::Next(final(self)@),
                Signal::End => Step::End(final(self)@),
                Signal::Open => Step::Open(final(self)@),
                Signal::Reject => Step::Reject,
            },
            r is Reject ==> final(self)@ == old(self)@,
    {
        match self.phase {
            Phase::Name => {
                if self.name.as_str().is_empty() {
                    if is_number {
                        return Signal::Reject;
                    }
                    if c == '\n' || c == '\r' || c == ' ' {
                        return Signal::Next;
                    }
                } else if c == ' ' {
                    self.phase = Phase::Between;
                    return Signal::Next;
                } else if c == ';' {
                    return Signal::End;
                }
                self.name.push(c);
                Signal::Next
            },
            Phase::Between => {
                if c == ';' {
                    Signal::End
                } else if c == ' ' {
                    Signal::Next
                } else if c == '{' {
                    Signal::Open
                } else if c == '\'' {
                    self.phase = Phase::Value(ParameterType::SingleQuote);
                    Signal::Next
                } else if c == '"' {
                    self.phase = Phase::Value(ParameterType::DoubleQuote);
                    Signal::Next
                } else {
                    self.phase = Phase::Value(ParameterType::Simple);
                    self.value = String::new();
                    self.value.push(c);
                    assert(self.value@ =~= seq![c]);
                    Signal::Next
                }
            },
            Phase::Value(kind) => {
                let closing = match kind {
                    ParameterType::SingleQuote => c == '\'',
                    ParameterType::DoubleQuote => c == '"',
                    ParameterType::Simple => c == ' ' || c == '\t',
                };
                if c == ';' {
                    self.close(kind);
                    Signal::End
                } else if closing {
                    self.close(kind);
                    Signal::Next
                } else {
                    self.value.push(c);
                    Signal::Next
                }
            },
        }
    }

    /// The directive read, with the block given.
    pub fn finish(self, block: Option<Block>) -> (d: Directive)
        ensures
            d@ == gathered(
                self@,
                match block {
                    Some(b) => Some(b@),
                    None => None,
                },
            ),
    {
        Directive { name: self.name, parameters: self.parameters, block }
    }
}


/// Reads the directives of a block from `input`, up to the `}` that closes
/// the block or to the end of the text. Returns the block and the text that
/// follows it: empty, or starting with that `}`.
pub fn parse_block(input: &str) -> (r: Result<(Block, &str), SyntaxError>)
    ensures
        block_from(input@, Seq::empty()) == match r {
            Ok((b, rest)) => Ok((b@, rest@)),
            Err(e) => Err(e),
        },
    decreases input@.len(), 1nat,
{
    let mut block = Block { directives: Vec::new() };
    let mut rest = input;
    assert(block@.directives =~= Seq::empty());
    loop
        invariant
            rest@.len() <= input@.len(),
            block_from(input@, Seq::empty()) == block_from(rest@, block@.directives),
        decreases rest@.len(),
    {
        let len = rest.unicode_len();
        let mut k: usize = 0;
        while k < len && is_skipped(rest.get_char(k))
            invariant
                k <= len,
                len == rest@.len(),
                significant(rest@, 0) == significant(rest@, k as nat),
            decreases len - k,
        {
            k += 1;
        }
        if k >= len {
            assert(rest@.subrange(len as int, len as int) =~= Seq::empty());
            return Ok((block, rest.substring_char(len, len)));
        }
        if rest.get_char(k) == '}' {
            return Ok((block, rest.substring_char(k, len)));
        }
        proof {
            lemma_directive_shortens(rest@, 0, start());
        }
        let ghost done = block@.directives;
        match parse_directive(rest) {
            Ok((d, after)) => {
                block.directives.push(d);
                assert(block@.directives =~= done.push(d@));
                match go_onward(after, after.trim()) {
                    None => {
                        assert(after@.subrange(0, 0) =~= Seq::empty());
                        return Ok((block, after.substring_char(0, 0)));
                    },
                    Some(next) => {
                        rest = next;
                    },
                }
            },
            Err(e) => {
                return Err(e);
            },
        }
    }
}

/// The text from which a block goes on after a directive that left the text
/// `after`, of which `trimmed` is what is left without the whitespace at
/// its ends: none where that is nothing.
pub fn go_onward<'a>(after: &'a str, trimmed: &str) -> (r: Option<&'a str>)
    ensures
        onward(after@, trimmed@) == match r {
            Some(next) => Some(next@),
            None => None,
        },
{
    if trimmed.is_empty() {
        None
    } else {
        Some(after)
    }
}

/// Whether a block skips `c` between its directives.
fn is_skipped(c: char) -> (r: bool)
    ensures
        r == skipped(c),
{
    c == ' ' || c == '\t' || c == '\n'
}

/// Reads one directive from the start of `input`: its name, its parameters
/// and its block if it has one. Returns the directive and the text that
/// follows it.
pub fn parse_directive(input: &str) -> (r: Result<(Directive, &str), SyntaxError>)
    ensures
        directive_spec(input@) == match r {
            Ok((d, rest)) => Ok((d@, rest@)),
            Err(e) => Err(e),
        },
    decreases input@.len(), 0nat,
{
    let len = input.unicode_len();
    if len == 0 {
        return Err(SyntaxError::Empty);
    }
    let mut scanner = Scanner::new();
    let mut i: usize = 0;
    while i < len
        invariant
            i <= len,
            len == input@.len(),
            directive_spec(input@) == directive_from(input@, i as nat, scanner@),
        decreases len - i,
    {
        let c = input.get_char(i);
        match scanner.feed(c, c.is_numeric()) {
            Signal::Next => {},
            Signal::End => {
                return Ok((scanner.finish(None), input.substring_char(i + 1, len)));
            },
            Signal::Open => {
                match parse_block(input.substring_char(i + 1, len)) {
                    Ok((block, rest)) => {
                        let n = rest.unicode_len();
                        if n == 0 {
                            return Err(SyntaxError::Unclosed);
                        }
                        return Ok((scanner.finish(Some(block)), rest.substring_char(1, n)));
                    },
                    Err(e) => {
                        return Err(e);
                    },
                }
            },
            Signal::Reject => {
                return Err(SyntaxError::Number(c));
            },
        }
        i += 1;
    }
    assert(input@.subrange(len as int, len as int) =~= Seq::empty());
    Ok((scanner.finish(None), input.substring_char(len, len)))
}

/// Reads a whole configuration: the directives of `input`, up to its end or
/// to a `}` that nothing opened.
pub fn parse(input: &str) -> (r: Result<Block, SyntaxError>)
    ensures
        parse_spec(input@) == match r {
            Ok(b) => Ok(b@),
            Err(e) => Err(e),
        },
{
    match parse_block(input) {
        Ok((block, _)) => Ok(block),
        Err(e) => Err(e),
    }
}

} // verus!
