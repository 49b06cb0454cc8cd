//! The session: keyword registry, line buffer, renderer and input loop.

use vstd::prelude::*;
use crate::color::{paint, seq_contains, Color};
use crate::error::RellError;
use crate::terminal::Terminal;
use crate::text::{first_token, push_char, str_eq, token_bounds, tok_end, tok_start};

verus! {

/// One registered command: its name, the color its name is rendered in, the
/// handler that a completed line starting with the name is dispatched to, and
/// a description for help listings.
pub struct Keyword<H> {
    pub name: String,
    pub color: Color,
    pub handler: H,
    pub desc: String,
}

/// No two registered keywords share a name.
pub open spec fn kws_unique<H>(kws: Seq<Keyword<H>>) -> bool {
    forall|i: int, j: int|
        0 <= i < j < kws.len() ==> (#[trigger] kws[i]).name@ != (#[trigger] kws[j]).name@
}

/// Whether some registered keyword is called `name`.
pub open spec fn reg_contains<H>(kws: Seq<Keyword<H>>, name: Seq<char>) -> bool {
    exists|i: int| 0 <= i < kws.len() && (#[trigger] kws[i]).name@ == name
}

/// The index of the registered keyword called `name`.
pub open spec fn kw_index<H>(kws: Seq<Keyword<H>>, name: Seq<char>) -> int {
    choose|i: int| 0 <= i < kws.len() && (#[trigger] kws[i]).name@ == name
}

/// The registry as a map from keyword name to its entry.
pub open spec fn reg_map<H>(kws: Seq<Keyword<H>>) -> Map<Seq<char>, Keyword<H>> {
    Map::new(|n: Seq<char>| reg_contains(kws, n), |n: Seq<char>| kws[kw_index(kws, n)])
}

/// With unique names, the keyword at `i` is what the registry maps its name to.
pub proof fn lemma_kw_at_index<H>(kws: Seq<Keyword<H>>, i: int)
    requires
        kws_unique(kws),
        0 <= i < kws.len(),
    ensures
        reg_contains(kws, kws[i].name@),
        kw_index(kws, kws[i].name@) == i,
        reg_map(kws)[kws[i].name@] == kws[i],
{
    assert(reg_contains(kws, kws[i].name@));
    let j = kw_index(kws, kws[i].name@);
    assert(0 <= j < kws.len() && kws[j].name@ == kws[i].name@);
    if j != i {
        assert(false);
    }
}

/// Overwriting the entry at `i` with one of the same name updates the
/// registry map at that name and keeps the names unique.
proof fn lemma_reg_map_update<H>(kws: Seq<Keyword<H>>, i: int, kw: Keyword<H>)
    requires
        kws_unique(kws),
        0 <= i < kws.len(),
        kws[i].name@ == kw.name@,
    ensures
        kws_unique(kws.update(i, kw)),
        reg_map(kws.update(i, kw)) == reg_map(kws).insert(kw.name@, kw),
{
    let kws2 = kws.update(i, kw);
    let name = kw.name@;
    assert forall|p: int| 0 <= p < kws.len() implies kws2[p].name@ == kws[p].name@ by {}
    assert(kws_unique(kws2));
    assert forall|n: Seq<char>| reg_contains(kws2, n) == reg_contains(kws, n) by {
        if reg_contains(kws2, n) {
            let j = choose|j: int| 0 <= j < kws2.len() && (#[trigger] kws2[j]).name@ == n;
            assert(kws[j].name@ == n);
        }
        if reg_contains(kws, n) {
            let j = choose|j: int| 0 <= j < kws.len() && (#[trigger] kws[j]).name@ == n;
            assert(kws2[j].name@ == n);
        }
    }
    assert(reg_contains(kws, name));
    assert forall|n: Seq<char>| reg_contains(kws2, n) implies reg_map(kws2)[n] == reg_map(
        kws,
    ).insert(name, kw)[n] by {
        let j2 = kw_index(kws2, n);
        assert(0 <= j2 < kws2.len() && kws2[j2].name@ == n);
        if n == name {
            if j2 != i {
                assert(kws2[i].name@ == name);
                assert(false);
            }
            assert(reg_map(kws2)[n] == kw);
        } else {
            assert(j2 != i);
            assert(kws2[j2] == kws[j2]);
            lemma_kw_at_index(kws, j2);
            assert(reg_map(kws)[n] == kws[j2]);
        }
    }
    assert(reg_map(kws2) =~= reg_map(kws).insert(name, kw));
}

/// Appending an entry with a fresh name inserts it into the registry map and
/// keeps the names unique.
proof fn lemma_reg_map_push<H>(kws: Seq<Keyword<H>>, kw: Keyword<H>)
    requires
        kws_unique(kws),
        !reg_contains(kws, kw.name@),
    ensures
        kws_unique(kws.push(kw)),
        reg_map(kws.push(kw)) == reg_map(kws).insert(kw.name@, kw),
{
    let kws2 = kws.push(kw);
    let name = kw.name@;
    assert forall|p: int, q: int| 0 <= p < q < kws2.len() implies kws2[p].name@ != kws2[q].name@ by {
        if q == kws.len() {
            assert(kws2[p] == kws[p]);
            assert(!(0 <= p < kws.len() && (#[trigger] kws[p]).name@ == name));
        } else {
            assert(kws2[p] == kws[p]);
            assert(kws2[q] == kws[q]);
        }
    }
    assert forall|n: Seq<char>| reg_contains(kws2, n) == (reg_contains(kws, n) || n
        == name) by {
        if reg_contains(kws2, n) {
            let j = choose|j: int| 0 <= j < kws2.len() && (#[trigger] kws2[j]).name@ == n;
            if j < kws.len() {
                assert(kws[j].name@ == n);
            }
        }
        if reg_contains(kws, n) {
            let j = choose|j: int| 0 <= j < kws.len() && (#[trigger] kws[j]).name@ == n;
            assert(kws2[j].name@ == n);
        }
        if n == name {
            assert(kws2[kws.len() as int].name@ == n);
        }
    }
    assert forall|n: Seq<char>| reg_contains(kws2, n) implies reg_map(kws2)[n] == reg_map(
        kws,
    ).insert(name, kw)[n] by {
        let j2 = kw_index(kws2, n);
        assert(0 <= j2 < kws2.len() && kws2[j2].name@ == n);
        if n == name {
            if j2 < kws.len() {
                assert(kws[j2].name@ == name);
                assert(false);
            }
            assert(reg_map(kws2)[n] == kw);
        } else {
            assert(j2 < kws.len());
            assert(kws2[j2] == kws[j2]);
            lemma_kw_at_index(kws, j2);
            assert(reg_map(kws)[n] == kws[j2]);
        }
    }
    assert(reg_map(kws2) =~= reg_map(kws).insert(name, kw));
}

/// Registering a name a second time leaves only the most recent entry
/// observable: the registry after both registrations is the registry after
/// the second alone, whatever was registered first.
pub proof fn lemma_register_overwrites<H>(
    reg: Map<Seq<char>, Keyword<H>>,
    name: Seq<char>,
    early: Keyword<H>,
    late: Keyword<H>,
)
    ensures
        reg.insert(name, early).insert(name, late) == reg.insert(name, late),
{
    assert(reg.insert(name, early).insert(name, late) =~= reg.insert(name, late));
}

/// An interactive session: the line being edited, the cursor position (always
/// the line's length), the prompt, the keyword registry, the run flag that
/// keeps the input loop going, and a ghost log of the lines dispatched to
/// handlers so far.
pub struct Rell<H> {
    pub line: String,
    pub curpos: u64,
    pub prompt: String,
    pub keywords: Vec<Keyword<H>>,
    pub run: bool,
    pub dispatched: Ghost<Seq<Seq<char>>>,
}

/// A command handler, supplied by the embedder. A completed line whose first
/// token is the handler's registered keyword is dispatched to it; the handler
/// reads the session's line and may change the prompt, the registry or the
/// run flag. It must leave the session well-formed and the line it was shown
/// untouched (the loop owns the line and clears it after dispatch), and
/// dispatching is the loop's business alone, so the dispatch log is not its
/// to change.
pub trait Handler: Sized + Clone {
    fn on_command(&self, r: &mut Rell<Self>) -> (res: Result<(), RellError>)
        requires
            old(r).wf(),
        ensures
            final(r).wf(),
            final(r).line == old(r).line,
            final(r).dispatched == old(r).dispatched,
    ;
}

impl<H> Rell<H> {
    /// A well-formed session: registered names are unique, the line being
    /// edited holds no newline, and the cursor sits at the line's end.
    pub open spec fn wf(&self) -> bool {
        &&& kws_unique(self.keywords@)
        &&& (forall|i: int| 0 <= i < self.line@.len() ==> self.line@[i] != '\n')
        &&& self.curpos == self.line@.len()
    }

    /// A fresh session: empty line, the given prompt, an empty registry, and
    /// the run flag set.
    pub fn new(prompt: &str) -> (r: Rell<H>)
        ensures
            r.wf(),
            r.line@ == Seq::<char>::empty(),
            r.curpos == 0,
            r.prompt@ == prompt@,
            r.keywords@ == Seq::<Keyword<H>>::empty(),
            r.run == true,
            r.dispatched@ == Seq::<Seq<char>>::empty(),
    {
        Rell {
            line: String::new(),
            curpos: 0,
            prompt: prompt.to_owned(),
            keywords: Vec::new(),
            run: true,
            dispatched: Ghost(Seq::empty()),
        }
    }

    /// Register a command: insert the entry under `keyword`, overwriting any
    /// earlier entry of that name.
    pub fn add_keyword(&mut self, keyword: String, col: Color, func: H, desc: String)
        requires
            old(self).wf(),
        ensures
            final(self).wf(),
            reg_map(final(self).keywords@) == reg_map(old(self).keywords@).insert(
                keyword@,
                (Keyword { name: keyword, color: col, handler: func, desc: desc }),
            ),
            final(self).line == old(self).line,
            final(self).curpos == old(self).curpos,
            final(self).prompt == old(self).prompt,
            final(self).run == old(self).run,
            final(self).dispatched == old(self).dispatched,
    {
        let ghost kws = self.keywords@;
        let mut i: usize = 0;
        while i < self.keywords.len()
            invariant
                0 <= i <= self.keywords.len(),
                old(self).wf(),
                *self == *old(self),
                self.keywords@ == kws,
                kws_unique(kws),
                forall|j: int| 0 <= j < i ==> (#[trigger] kws[j]).name@ != keyword@,
            decreases self.keywords.len() - i,
        {
            if str_eq(self.keywords[i].name.as_str(), keyword.as_str()) {
                let kw = Keyword { name: keyword, color: col, handler: func, desc: desc };
                proof {
                    lemma_reg_map_update(kws, i as int, kw);
                }
                self.keywords.set(i, kw);
                return ;
            }
            i = i + 1;
        }
        let kw = Keyword { name: keyword, color: col, handler: func, desc: desc };
        proof {
            assert(!reg_contains(kws, kw.name@));
            lemma_reg_map_push(kws, kw);
        }
        self.keywords.push(kw);
    }

    /// The index of the entry registered under `token`, if any: `Some(i)`
    /// exactly when `token` is registered, and then entry `i` is its entry.
    pub fn find_index(&self, token: &str) -> (r: Option<usize>)
        requires
            self.wf(),
        ensures
            match r {
                Some(i) => i < self.keywords@.len() && self.keywords@[i as int].name@ == token@
                    && reg_map(self.keywords@).contains_key(token@) && reg_map(
                    self.keywords@,
                )[token@] == self.keywords@[i as int],
                None => !reg_map(self.keywords@).contains_key(token@),
            },
    {
        let mut i: usize = 0;
        while i < self.keywords.len()
            invariant
                0 <= i <= self.keywords.len(),
                self.wf(),
                forall|j: int| 0 <= j < i ==> (#[trigger] self.keywords@[j]).name@ != token@,
            decreases self.keywords.len() - i,
        {
            if str_eq(self.keywords[i].name.as_str(), token) {
                proof {
                    lemma_kw_at_index(self.keywords@, i as int);
                }
                return Some(i);
            }
            i = i + 1;
        }
        proof {
            assert(!reg_contains(self.keywords@, token@));
        }
        None
    }

    /// Look a token up in the registry: exact match, case-sensitive.
    pub fn lookup(&self, token: &str) -> (r: Option<&Keyword<H>>)
        requires
            self.wf(),
        ensures
            match r {
                Some(kw) => reg_map(self.keywords@).contains_key(token@) && *kw == reg_map(
                    self.keywords@,
                )[token@],
                None => !reg_map(self.keywords@).contains_key(token@),
            },
    {
        match self.find_index(token) {
            Some(i) => Some(&self.keywords[i]),
            None => None,
        }
    }

    /// The default handler body: leave the session exactly as it is.
    pub fn def_func(_r: &mut Rell<H>)
        ensures
            *final(_r) == *old(_r),
    {
    }

    /// Stop the input loop: clear the run flag and touch nothing else.
    pub fn def_exit(r: &mut Rell<H>)
        ensures
            final(r).run == false,
            final(r).line == old(r).line,
            final(r).curpos == old(r).curpos,
            final(r).prompt == old(r).prompt,
            final(r).keywords == old(r).keywords,
            final(r).dispatched == old(r).dispatched,
    {
        r.run = false;
    }
}


/// A prefix of a text is still its prefix after more text is appended.
proof fn lemma_prefix_extends(p: Seq<char>, a: Seq<char>, b: Seq<char>)
    requires
        p.is_prefix_of(a),
    ensures
        p.is_prefix_of(a + b),
{
    assert((a + b).subrange(0, p.len() as int) =~= a.subrange(0, p.len() as int));
}

/// Being-a-prefix carries over from a text to any extension of it.
proof fn lemma_prefix_trans(p: Seq<char>, a: Seq<char>, b: Seq<char>)
    requires
        p.is_prefix_of(a),
        a.is_prefix_of(b),
    ensures
        p.is_prefix_of(b),
{
    assert(b.subrange(0, p.len() as int) =~= a.subrange(0, p.len() as int));
}

/// A renderer, replaceable by the embedder: it takes one typed character,
/// leaves the line buffer holding it, and redraws the line on the terminal.
/// A renderer draws and types, nothing more: it leaves the session well-formed,
/// the run flag, the registry and the dispatch log alone, and the terminal's
/// mode as it found it; it only adds to the terminal's output, and its
/// failures are output failures.
pub trait Renderer<H>: Sized {
    fn render<T: Terminal>(&self, r: &mut Rell<H>, term: &mut T, c: char) -> (res: Result<
        (),
        RellError,
    >)
        requires
            old(r).wf(),
            c != '\n',
        ensures
            final(r).wf(),
            final(r).line@ == old(r).line@.push(c),
            final(r).run == old(r).run,
            final(r).keywords == old(r).keywords,
            final(r).dispatched == old(r).dispatched,
            final(term).mode() == old(term).mode(),
            final(term).saved() == old(term).saved(),
            final(term).input_left() == old(term).input_left(),
            res is Ok ==> old(term).out().is_prefix_of(final(term).out()),
            res matches Err(e) ==> e == RellError::IoFlush,
    ;
}

/// The renderer the loop uses unless the embedder supplies another:
/// `Rell::def_render`.
#[derive(Clone, Copy, Debug)]
pub struct DefaultRenderer;

impl<H> Renderer<H> for DefaultRenderer {
    fn render<T: Terminal>(&self, r: &mut Rell<H>, term: &mut T, c: char) -> (res: Result<
        (),
        RellError,
    >) {
        let res = Rell::def_render(r, term, c);
        proof {
            if res is Ok {
                assert(term.out().subrange(0, old(term).out().len() as int) =~= old(term).out());
            }
        }
        res
    }
}

/// The color the renderer gives the first token of `line`: the registered
/// entry's color when the (trimmed) token is registered, the error color
/// otherwise.
pub open spec fn token_color<H>(line: Seq<char>, kws: Seq<Keyword<H>>) -> Color {
    if reg_map(kws).contains_key(first_token(line)) {
        reg_map(kws)[first_token(line)].color
    } else {
        Color::Red
    }
}

/// How the current line is to be drawn: its first token spans
/// `tok_a..tok_b` and is painted `color`; what is before the token is leading
/// whitespace and what follows it is the tail, both unstyled.
#[derive(PartialEq, Eq, Structural, Clone, Copy, Debug)]
pub struct RenderPlan {
    pub tok_a: usize,
    pub tok_b: usize,
    pub color: Color,
}

/// `px` is an acceptable painting of the token `tok`: when the token holds no
/// escape character, it stands in `px` verbatim as one contiguous run.
pub open spec fn painted_token(px: Seq<char>, tok: Seq<char>) -> bool {
    (forall|i: int| 0 <= i < tok.len() ==> tok[i] != '\u{1b}') ==> seq_contains(px, tok)
}

/// The text one redraw writes: a carriage return, the prompt and a space,
/// then the line with its first token replaced by `px`, its painted form.
pub open spec fn rendered(prompt: Seq<char>, line: Seq<char>, px: Seq<char>) -> Seq<char> {
    seq!['\r'] + prompt + seq![' '] + line.subrange(0, tok_start(line)) + px + line.subrange(
        tok_end(line),
        line.len() as int,
    )
}

/// The diagnostic reported for an unrecognized command.
pub open spec fn diag_text(tok: Seq<char>) -> Seq<char> {
    "\nunrecognized command: "@ + tok
}

/// The help listing of a registry: one line per entry, the keyword and its
/// description, in registration order.
pub open spec fn help_lines<H>(kws: Seq<Keyword<H>>) -> Seq<char>
    decreases kws.len(),
{
    if kws.len() == 0 {
        Seq::empty()
    } else {
        help_lines(kws.drop_last()) + "\n"@ + kws.last().name@ + "\t-- "@ + kws.last().desc@
    }
}

/// What a completed line leads to: nothing for an empty or all-whitespace
/// line, the handler of entry `i` when the first token is registered there,
/// and an unrecognized-command report otherwise.
#[derive(PartialEq, Eq, Structural, Clone, Copy, Debug)]
pub enum Dispatch {
    Noop,
    Invoke(usize),
    Unrecognized,
}

impl<H> Rell<H> {
    /// Decide how the current line is to be drawn: where its first token is
    /// and its color, the registry's color for the token when it is
    /// registered and the error color when it is not.
    pub fn render_plan(&self) -> (p: RenderPlan)
        requires
            self.wf(),
        ensures
            p.tok_a == tok_start(self.line@),
            p.tok_b == tok_end(self.line@),
            p.tok_a <= p.tok_b <= self.line@.len(),
            p.color == token_color(self.line@, self.keywords@),
    {
        let (a, b) = token_bounds(self.line.as_str());
        let tok = self.line.as_str().substring_char(a, b);
        let color = match self.find_index(tok) {
            Some(i) => self.keywords[i].color,
            None => Color::Red,
        };
        RenderPlan { tok_a: a, tok_b: b, color }
    }

    /// The default renderer: append the typed character to the line, then
    /// redraw the whole line over the prompt, the first whitespace-delimited
    /// token painted in its color from `render_plan`, the rest unstyled, and
    /// flush.
    pub fn def_render<T: Terminal>(r: &mut Rell<H>, term: &mut T, c: char) -> (res: Result<
        (),
        RellError,
    >)
        requires
            old(r).wf(),
            c != '\n',
        ensures
            final(r).wf(),
            final(r).line@ == old(r).line@.push(c),
            final(r).prompt == old(r).prompt,
            final(r).run == old(r).run,
            final(r).keywords == old(r).keywords,
            final(r).dispatched == old(r).dispatched,
            final(term).mode() == old(term).mode(),
            final(term).saved() == old(term).saved(),
            final(term).input_left() == old(term).input_left(),
            res matches Err(e) ==> e == RellError::IoFlush,
            res is Ok ==> exists|px: Seq<char>|
                #[trigger] painted_token(px, first_token(old(r).line@.push(c)))
                    && final(term).out() == old(term).out() + rendered(
                    old(r).prompt@,
                    old(r).line@.push(c),
                    px,
                ),
    {
        push_char(&mut r.line, c);
        let n = r.line.as_str().unicode_len();
        r.curpos = n as u64;
        let plan = r.render_plan();
        match term.write_text("\r") {
            Ok(_) => {},
            Err(e) => return Err(e),
        }
        match term.write_text(r.prompt.as_str()) {
            Ok(_) => {},
            Err(e) => return Err(e),
        }
        match term.write_text(" ") {
            Ok(_) => {},
            Err(e) => return Err(e),
        }
        let head = r.line.as_str().substring_char(0, plan.tok_a);
        match term.write_text(head) {
            Ok(_) => {},
            Err(e) => return Err(e),
        }
        let tok = r.line.as_str().substring_char(plan.tok_a, plan.tok_b);
        let painted = paint(tok, plan.color);
        match term.write_text(painted.as_str()) {
            Ok(_) => {},
            Err(e) => return Err(e),
        }
        let tail = r.line.as_str().substring_char(plan.tok_b, n);
        match term.write_text(tail) {
            Ok(_) => {},
            Err(e) => return Err(e),
        }
        match term.flush_out() {
            Ok(_) => {},
            Err(e) => return Err(e),
        }
        proof {
            reveal_strlit("\r");
            reveal_strlit(" ");
            let line2 = old(r).line@.push(c);
            assert(("\r")@ =~= seq!['\r']);
            assert((" ")@ =~= seq![' ']);
            assert(painted_token(painted@, first_token(line2)));
            assert(term.out() =~= old(term).out() + rendered(old(r).prompt@, line2, painted@));
        }
        Ok(())
    }

    /// Resolve the current line against the registry: an empty first token is
    /// a no-op; a registered first token resolves to exactly its entry; any
    /// other first token is an unrecognized command.
    pub fn resolve(&self) -> (d: Dispatch)
        requires
            self.wf(),
        ensures
            ({
                let tok = first_token(self.line@);
                let reg = reg_map(self.keywords@);
                &&& (d == Dispatch::Noop <==> tok.len() == 0)
                &&& (d == Dispatch::Unrecognized <==> tok.len() > 0 && !reg.contains_key(tok))
                &&& (tok.len() > 0 && reg.contains_key(tok) ==> d matches Dispatch::Invoke(_))
                &&& (match d {
                    Dispatch::Invoke(i) => i < self.keywords@.len() && self.keywords@[i as int]
                        == reg[tok] && self.keywords@[i as int].name@ == tok && reg.contains_key(
                        tok,
                    ),
                    _ => true,
                })
            }),
    {
        let (a, b) = token_bounds(self.line.as_str());
        if a == b {
            return Dispatch::Noop;
        }
        let tok = self.line.as_str().substring_char(a, b);
        match self.find_index(tok) {
            Some(i) => Dispatch::Invoke(i),
            None => Dispatch::Unrecognized,
        }
    }

    /// The text of a help listing: for each registered keyword, one line
    /// holding its name and its description.
    pub fn help_text(&self) -> (r: String)
        ensures
            r@ == help_lines(self.keywords@),
    {
        let mut s = String::new();
        let mut i: usize = 0;
        while i < self.keywords.len()
            invariant
                0 <= i <= self.keywords.len(),
                s@ == help_lines(self.keywords@.take(i as int)),
            decreases self.keywords.len() - i,
        {
            s.append("\n");
            s.append(self.keywords[i].name.as_str());
            s.append("\t-- ");
            s.append(self.keywords[i].desc.as_str());
            proof {
                let kws = self.keywords@;
                assert(kws.take(i as int + 1).drop_last() =~= kws.take(i as int));
                assert(kws.take(i as int + 1).last() == kws[i as int]);
                assert(s@ =~= help_lines(kws.take(i as int + 1)));
            }
            i = i + 1;
        }
        proof {
            assert(self.keywords@.take(self.keywords@.len() as int) =~= self.keywords@);
        }
        s
    }

    /// The text reporting that the line's first token is not implemented.
    pub fn unimpl_text(&self) -> (r: String)
        ensures
            r@ == first_token(self.line@) + " is not implemented yet!"@,
    {
        let (a, b) = token_bounds(self.line.as_str());
        let tok = self.line.as_str().substring_char(a, b);
        tok.to_owned().concat(" is not implemented yet!")
    }
}

/// Restore the terminal mode and settle the loop's outcome: the pending
/// outcome when restoring succeeds, a terminal-mode error otherwise. When a
/// pending error and a restore failure coincide, the restore failure wins:
/// a terminal-mode error in the result is the one sign that the terminal may
/// have been left unrestored.
fn close_loop<T: Terminal>(term: &mut T, pending: Result<(), RellError>) -> (res: Result<
    (),
    RellError,
>)
    ensures
        final(term).out() == old(term).out(),
        final(term).saved() == old(term).saved(),
        final(term).input_left() == old(term).input_left(),
        res is Ok ==> final(term).mode() == old(term).saved() && pending is Ok,
        res matches Err(e) ==> e == RellError::TerminalMode || (res == pending && final(term).mode()
            == old(term).saved()),
{
    match term.restore_mode() {
        Ok(_) => pending,
        Err(e) => Err(e),
    }
}

impl<H: Handler> Rell<H> {
    /// Write a fresh prompt line: newline, the prompt, one space, flushed.
    fn show_prompt<T: Terminal>(&self, term: &mut T) -> (res: Result<(), RellError>)
        ensures
            final(term).mode() == old(term).mode(),
            final(term).saved() == old(term).saved(),
            final(term).input_left() == old(term).input_left(),
            res is Ok ==> final(term).out() == old(term).out() + seq!['\n'] + self.prompt@
                + seq![' '],
            res matches Err(e) ==> e == RellError::IoFlush,
    {
        match term.write_text("\n") {
            Ok(_) => {},
            Err(e) => return Err(e),
        }
        match term.write_text(self.prompt.as_str()) {
            Ok(_) => {},
            Err(e) => return Err(e),
        }
        match term.write_text(" ") {
            Ok(_) => {},
            Err(e) => return Err(e),
        }
        match term.flush_out() {
            Ok(_) => {},
            Err(e) => return Err(e),
        }
        proof {
            reveal_strlit("\n");
            reveal_strlit(" ");
            assert(term.out() =~= old(term).out() + seq!['\n'] + self.prompt@ + seq![' ']);
        }
        Ok(())
    }

    /// Dispatch the completed line: look the first token up and invoke its
    /// handler with the full line, report an unrecognized command, or do
    /// nothing for a blank line. Exactly one entry is added to the dispatch
    /// log when and only when a handler is invoked, and it holds the full
    /// untrimmed line the handler observed, which the handler leaves in
    /// place; on an unrecognized command the run flag and the whole session
    /// are left as they were. No contract can bind the handler call itself
    /// (a clause cannot speak of a `&mut` trait call), so that a log entry
    /// stands for exactly one invocation, and that the handler's own error
    /// comes back verbatim, rest on this body, not on its contract.
    pub fn dispatch_line<T: Terminal>(&mut self, term: &mut T) -> (res: Result<(), RellError>)
        requires
            old(self).wf(),
        ensures
            final(self).wf(),
            final(term).mode() == old(term).mode(),
            final(term).saved() == old(term).saved(),
            final(term).input_left() == old(term).input_left(),
            ({
                let tok = first_token(old(self).line@);
                let reg = reg_map(old(self).keywords@);
                &&& (tok.len() == 0 ==> *final(self) == *old(self) && final(term).out() == old(
                    term,
                ).out() && res is Ok)
                &&& (tok.len() > 0 && reg.contains_key(tok) ==> final(self).dispatched@ == old(
                    self,
                ).dispatched@.push(old(self).line@) && final(term).out() == old(term).out()
                    && final(self).line == old(self).line)
                &&& (tok.len() > 0 && !reg.contains_key(tok) ==> *final(self) == *old(self) && (res
                    is Ok ==> final(term).out() == old(term).out() + diag_text(tok)) && (res
                    matches Err(e) ==> e == RellError::IoFlush) && final(self).run == old(
                    self,
                ).run)
            }),
    {
        let d = self.resolve();
        match d {
            Dispatch::Noop => Ok(()),
            Dispatch::Invoke(i) => {
                self.dispatched = Ghost(self.dispatched@.push(self.line@));
                let h = self.keywords[i].handler.clone();
                h.on_command(self)
            },
            Dispatch::Unrecognized => {
                let (a, b) = token_bounds(self.line.as_str());
                let tok = self.line.as_str().substring_char(a, b);
                match term.write_text("\nunrecognized command: ") {
                    Ok(_) => {},
                    Err(e) => return Err(e),
                }
                match term.write_text(tok) {
                    Ok(_) => {},
                    Err(e) => return Err(e),
                }
                proof {
                    assert(term.out() =~= old(term).out() + diag_text(first_token(
                        old(self).line@,
                    )));
                }
                Ok(())
            },
        }
    }

    /// Run the input loop: enter raw mode, read one byte at a time, render
    /// each ordinary byte, dispatch the line on newline (clearing the line
    /// and reprinting the prompt afterwards while the run flag stands), and
    /// stop when a handler clears the run flag or an error is fatal. Whatever
    /// the exit path, the terminal mode is restored to its pre-loop value,
    /// unless restoring is itself what failed; a restore failure is then the
    /// error returned, in place of any error pending from the loop.
    pub fn input<T: Terminal>(&mut self, term: &mut T) -> (res: Result<(), RellError>)
        requires
            old(self).wf(),
        ensures
            final(self).wf(),
            res is Ok ==> final(self).run == false,
            res is Ok ==> final(term).mode() == old(term).mode(),
            res matches Err(e) ==> e == RellError::TerminalMode || final(term).mode() == old(
                term,
            ).mode(),
            old(self).dispatched@.is_prefix_of(final(self).dispatched@),
            res is Ok ==> (old(term).out() + seq!['\n'] + old(self).prompt@
                + seq![' ']).is_prefix_of(final(term).out()),
            res is Ok && old(self).run ==> final(term).input_left() < old(term).input_left(),
            res is Ok && old(self).run ==> final(self).dispatched@.len() > old(
                self,
            ).dispatched@.len(),
            old(self).run && !final(self).run ==> final(term).input_left() < old(
                term,
            ).input_left() && final(self).dispatched@.len() > old(self).dispatched@.len(),
    {
        self.input_with(term, &DefaultRenderer)
    }

    /// Run the input loop with a renderer of the embedder's own in place of
    /// the default one; one renderer is active for the whole loop.
    pub fn input_with<T: Terminal, R: Renderer<H>>(&mut self, term: &mut T, renderer: &R) -> (res:
        Result<(), RellError>)
        requires
            old(self).wf(),
        ensures
            final(self).wf(),
            res is Ok ==> final(self).run == false,
            res is Ok ==> final(term).mode() == old(term).mode(),
            res matches Err(e) ==> e == RellError::TerminalMode || final(term).mode() == old(
                term,
            ).mode(),
            old(self).dispatched@.is_prefix_of(final(self).dispatched@),
            res is Ok ==> (old(term).out() + seq!['\n'] + old(self).prompt@
                + seq![' ']).is_prefix_of(final(term).out()),
            res is Ok && old(self).run ==> final(term).input_left() < old(term).input_left(),
            res is Ok && old(self).run ==> final(self).dispatched@.len() > old(
                self,
            ).dispatched@.len(),
            old(self).run && !final(self).run ==> final(term).input_left() < old(
                term,
            ).input_left() && final(self).dispatched@.len() > old(self).dispatched@.len(),
    {
        let ghost banner: Seq<char> = old(term).out() + seq!['\n'] + old(self).prompt@
            + seq![' '];
        match self.show_prompt(term) {
            Ok(_) => {},
            Err(e) => return Err(e),
        }
        proof {
            assert(term.out().subrange(0, banner.len() as int) =~= banner);
        }
        match term.enter_raw() {
            Ok(_) => {},
            Err(e) => return Err(e),
        }
        while self.run
            invariant
                self.wf(),
                term.saved() == old(term).mode(),
                old(self).dispatched@.is_prefix_of(self.dispatched@),
                banner == old(term).out() + seq!['\n'] + old(self).prompt@ + seq![' '],
                banner.is_prefix_of(term.out()),
                term.input_left() <= old(term).input_left(),
                old(self).run && !self.run ==> term.input_left() < old(term).input_left(),
                old(self).run && !self.run ==> self.dispatched@.len() > old(
                    self,
                ).dispatched@.len(),
            decreases term.input_left(),
        {
            let b = match term.read_byte() {
                Ok(b) => b,
                Err(e) => return close_loop(term, Err(e)),
            };
            if b == 10u8 {
                let ghost out_read = term.out();
                let ghost line_read = self.line@;
                match self.dispatch_line(term) {
                    Ok(_) => {},
                    Err(e) => return close_loop(term, Err(e)),
                }
                proof {
                    if term.out() != out_read {
                        lemma_prefix_extends(banner, out_read, diag_text(first_token(line_read)));
                    }
                }
                if self.run {
                    let ghost out_disp = term.out();
                    match self.show_prompt(term) {
                        Ok(_) => {},
                        Err(e) => return close_loop(term, Err(e)),
                    }
                    proof {
                        lemma_prefix_extends(
                            banner,
                            out_disp,
                            seq!['\n'] + self.prompt@ + seq![' '],
                        );
                    }
                    self.line = String::new();
                    self.curpos = 0;
                }
            } else {
                let c = b as char;
                let ghost out_render = term.out();
                match renderer.render(self, term, c) {
                    Ok(_) => {},
                    Err(e) => return close_loop(term, Err(e)),
                }
                proof {
                    lemma_prefix_trans(banner, out_render, term.out());
                }
            }
        }
        close_loop(term, Ok(()))
    }
}

/// A handler that does nothing; dispatching to it leaves the session as the
/// dispatcher left it.
#[derive(Clone, Copy, Debug)]
pub struct NopHandler;

impl Handler for NopHandler {
    fn on_command(&self, r: &mut Rell<NopHandler>) -> (res: Result<(), RellError>) {
        Rell::def_func(r);
        Ok(())
    }
}

} // verus!
