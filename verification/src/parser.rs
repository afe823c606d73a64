use vstd::prelude::*;

verus! {

/// What the parser hands over to an emulator.
pub enum Event {
    /// A character to show.
    Print(char),
    /// A control character to act on.
    Execute(char),
    /// A control sequence: its final character, the intermediates collected
    /// before it, and its parameters.
    CsiDispatch(char, Seq<char>, Seq<u16>),
    /// An escape sequence: its final character and the intermediates
    /// collected before it.
    EscDispatch(char, Seq<char>),
}

/// The receiver of the parser's events.
///
/// An implementation says, with `handles`, which states may follow a state
/// when an event is handed over; each method leaves the emulator in such a
/// state.
pub trait Emulator {
    /// Whether the emulator is in a state in which it accepts events. An
    /// implementation that says nothing accepts them in every state.
    open spec fn valid(&self) -> bool {
        true
    }

    /// Whether `next` is a state this emulator may be in after `event`. An
    /// implementation that says nothing may be in any state.
    open spec fn handles(&self, event: Event, next: &Self) -> bool {
        true
    }

    fn print(&mut self, input: char)
        requires
            old(self).valid(),
        ensures
            final(self).valid(),
            old(self).handles(Event::Print(input), final(self)),
    ;

    fn execute(&mut self, input: char)
        requires
            old(self).valid(),
        ensures
            final(self).valid(),
            old(self).handles(Event::Execute(input), final(self)),
    ;

    fn csi_dispatch(&mut self, input: char, interims: &[char], params: &[u16])
        requires
            old(self).valid(),
        ensures
            final(self).valid(),
            old(self).handles(Event::CsiDispatch(input, interims@, params@), final(self)),
    ;

    fn esc_dispatch(&mut self, input: char, interims: &[char])
        requires
            old(self).valid(),
        ensures
            final(self).valid(),
            old(self).handles(Event::EscDispatch(input, interims@), final(self)),
    ;
}

/// Whether an emulator that starts as `pre` and is handed `events` in order
/// may end as `post`.
pub open spec fn handles_all<T: Emulator>(pre: T, events: Seq<Event>, post: T) -> bool
    decreases events.len(),
{
    if events.len() == 0 {
        pre == post
    } else {
        exists|mid: T|
            #![trigger mid.handles(events.last(), &post)]
            handles_all(pre, events.drop_last(), mid) && mid.handles(events.last(), &post)
    }
}

/// What a step of the parser does besides changing state.
#[derive(Debug, Clone, Copy, PartialEq, Eq, Structural)]
pub enum Action {
    Ignore,
    Print,
    Execute,
    CsiDispatch,
    EscDispatch,
    Collect,
    Param,
    Clear,
    Hook,
    Put,
    Unhook,
    OscStart,
    OscPut,
    OscEnd,
}

/// The states of the DEC ANSI parser.
#[derive(Debug, Clone, Copy, PartialEq, Eq, Structural)]
pub enum State {
    Ground,
    Esc,
    EscInterim,
    CsiEntry,
    CsiIgnore,
    CsiParam,
    CsiInterim,
    DcsEntry,
    DcsInterim,
    DcsIgnore,
    DcsParam,
    DcsPassthrough,
    SosPmApcString,
    OscString,
}

impl Default for State {
    fn default() -> (r: Self)
        ensures
            r == State::Ground,
    {
        State::Ground
    }
}

impl State {
    /// The action taken whenever this state is entered.
    pub open spec fn entry(self) -> Action {
        match self {
            State::Esc | State::CsiEntry | State::DcsEntry => Action::Clear,
            State::OscString => Action::OscStart,
            State::DcsPassthrough => Action::Hook,
            _ => Action::Ignore,
        }
    }

    /// The action taken whenever this state is left.
    pub open spec fn exit(self) -> Action {
        match self {
            State::OscString => Action::OscEnd,
            State::DcsPassthrough => Action::Unhook,
            _ => Action::Ignore,
        }
    }

    pub fn enter_action(&self) -> (r: Action)
        ensures
            r == self.entry(),
    {
        match self {
            State::Esc => Action::Clear,
            State::CsiEntry => Action::Clear,
            State::DcsEntry => Action::Clear,
            State::OscString => Action::OscStart,
            State::DcsPassthrough => Action::Hook,
            _ => Action::Ignore,
        }
    }

    pub fn exit_action(&self) -> (r: Action)
        ensures
            r == self.exit(),
    {
        match self {
            State::OscString => Action::OscEnd,
            State::DcsPassthrough => Action::Unhook,
            _ => Action::Ignore,
        }
    }
}

/// A C0 control other than CAN, SUB and ESC.
pub open spec fn is_c0(c: u32) -> bool {
    c <= 0x17 || c == 0x19 || 0x1c <= c <= 0x1f
}

/// What a character does in whatever state it arrives: CAN, SUB and most C1
/// controls are executed from the ground state, ESC and the C1 introducers
/// start their sequence, and ST only returns to the ground state.
pub open spec fn anywhere(c: u32) -> Option<(State, Action)> {
    if c == 0x18 || c == 0x1a || 0x80 <= c <= 0x8f || 0x91 <= c <= 0x97 || c == 0x99 || c == 0x9a {
        Some((State::Ground, Action::Execute))
    } else if c == 0x9c {
        Some((State::Ground, Action::Ignore))
    } else if c == 0x1b {
        Some((State::Esc, Action::Ignore))
    } else if c == 0x98 || c == 0x9e || c == 0x9f {
        Some((State::SosPmApcString, Action::Ignore))
    } else if c == 0x90 {
        Some((State::DcsEntry, Action::Ignore))
    } else if c == 0x9d {
        Some((State::OscString, Action::Ignore))
    } else if c == 0x9b {
        Some((State::CsiEntry, Action::Ignore))
    } else {
        None
    }
}

/// What a character that has no effect of its own in every state does in
/// `state`: the state to change to, if any, and the action to take. A pair
/// that the tables of the parser leave open changes nothing.
pub open spec fn within(state: State, c: u32) -> (Option<State>, Action) {
    match state {
        State::Ground => if is_c0(c) {
            (None, Action::Execute)
        } else if 0x20 <= c <= 0x7f || 0xa0 <= c {
            (None, Action::Print)
        } else {
            (None, Action::Ignore)
        },
        State::Esc => if is_c0(c) {
            (None, Action::Execute)
        } else if 0x20 <= c <= 0x2f {
            (Some(State::EscInterim), Action::Collect)
        } else if c == 0x50 {
            (Some(State::DcsEntry), Action::Ignore)
        } else if c == 0x58 || c == 0x5e || c == 0x5f {
            (Some(State::SosPmApcString), Action::Ignore)
        } else if c == 0x5b {
            (Some(State::CsiEntry), Action::Ignore)
        } else if c == 0x5d {
            (Some(State::OscString), Action::Ignore)
        } else if 0x30 <= c <= 0x7e {
            (Some(State::Ground), Action::EscDispatch)
        } else {
            (None, Action::Ignore)
        },
        State::EscInterim => if is_c0(c) {
            (None, Action::Execute)
        } else if 0x20 <= c <= 0x2f {
            (None, Action::Collect)
        } else if 0x30 <= c <= 0x7e {
            (Some(State::Ground), Action::EscDispatch)
        } else {
            (None, Action::Ignore)
        },
        State::CsiEntry => if is_c0(c) {
            (None, Action::Execute)
        } else if 0x20 <= c <= 0x2f {
            (Some(State::CsiInterim), Action::Collect)
        } else if 0x30 <= c <= 0x39 || c == 0x3b {
            (Some(State::CsiParam), Action::Param)
        } else if c == 0x3a {
            (Some(State::CsiIgnore), Action::Ignore)
        } else if 0x3c <= c <= 0x3f {
            (Some(State::CsiParam), Action::Collect)
        } else if 0x40 <= c <= 0x7e {
            (Some(State::Ground), Action::CsiDispatch)
        } else {
            (None, Action::Ignore)
        },
        State::CsiIgnore => if is_c0(c) {
            (None, Action::Execute)
        } else if 0x40 <= c <= 0x7e {
            (Some(State::Ground), Action::Ignore)
        } else {
            (None, Action::Ignore)
        },
        State::CsiParam => if is_c0(c) {
            (None, Action::Execute)
        } else if 0x20 <= c <= 0x2f {
            (Some(State::CsiInterim), Action::Collect)
        } else if 0x30 <= c <= 0x39 || c == 0x3b {
            (None, Action::Param)
        } else if c == 0x3a || 0x3c <= c <= 0x3f {
            (Some(State::CsiIgnore), Action::Ignore)
        } else if 0x40 <= c <= 0x7e {
            (Some(State::Ground), Action::CsiDispatch)
        } else {
            (None, Action::Ignore)
        },
        State::CsiInterim => if is_c0(c) {
            (None, Action::Execute)
        } else if 0x20 <= c <= 0x2f {
            (None, Action::Collect)
        } else if 0x30 <= c <= 0x3f {
            (Some(State::CsiIgnore), Action::Ignore)
        } else if 0x40 <= c <= 0x7e {
            (Some(State::Ground), Action::CsiDispatch)
        } else {
            (None, Action::Ignore)
        },
        State::DcsEntry => if 0x20 <= c <= 0x2f {
            (Some(State::DcsInterim), Action::Collect)
        } else if 0x30 <= c <= 0x39 || c == 0x3b {
            (Some(State::DcsParam), Action::Param)
        } else if c == 0x3a {
            (Some(State::DcsIgnore), Action::Ignore)
        } else if 0x3c <= c <= 0x3f {
            (Some(State::DcsParam), Action::Collect)
        } else if 0x40 <= c <= 0x7e {
            (Some(State::DcsPassthrough), Action::Ignore)
        } else {
            (None, Action::Ignore)
        },
        State::DcsInterim => if 0x20 <= c <= 0x2f {
            (None, Action::Collect)
        } else if 0x30 <= c <= 0x3f {
            (Some(State::DcsIgnore), Action::Ignore)
        } else if 0x40 <= c <= 0x7e {
            (Some(State::DcsPassthrough), Action::Ignore)
        } else {
            (None, Action::Ignore)
        },
        State::DcsIgnore => (None, Action::Ignore),
        State::DcsParam => if 0x20 <= c <= 0x2f {
            (Some(State::DcsInterim), Action::Collect)
        } else if 0x30 <= c <= 0x39 || c == 0x3b {
            (None, Action::Param)
        } else if c == 0x3a || 0x3c <= c <= 0x3f {
            (Some(State::DcsIgnore), Action::Ignore)
        } else if 0x40 <= c <= 0x7e {
            (Some(State::DcsPassthrough), Action::Ignore)
        } else {
            (None, Action::Ignore)
        },
        State::DcsPassthrough => if is_c0(c) || 0x20 <= c <= 0x7e {
            (None, Action::Put)
        } else {
            (None, Action::Ignore)
        },
        State::SosPmApcString => (None, Action::Ignore),
        State::OscString => if c == 0x07 {
            (Some(State::Ground), Action::Ignore)
        } else if 0x20 <= c <= 0x7f {
            (None, Action::OscPut)
        } else {
            (None, Action::Ignore)
        },
    }
}

/// What `input` does in `state`: the state to change to, if any, and the
/// action to take.
pub open spec fn transition(state: State, input: char) -> (Option<State>, Action) {
    match anywhere(input as u32) {
        Some((next, action)) => (Some(next), action),
        None => within(state, input as u32),
    }
}

/// A parameter with one more decimal digit, held at the largest value that
/// sixteen bits take.
pub open spec fn with_digit(param: u16, digit: int) -> u16 {
    if 10 * param + digit > u16::MAX {
        u16::MAX
    } else {
        (10 * param + digit) as u16
    }
}

/// The value of a parser: its state, the parameters read so far, of which
/// there is always one, and the intermediates collected so far.
#[verifier::ext_equal]
pub struct ParserState {
    pub state: State,
    pub params: Seq<u16>,
    pub interims: Seq<char>,
}

impl ParserState {
    /// The parser before any input.
    pub open spec fn initial() -> ParserState {
        ParserState { state: State::Ground, params: seq![0u16], interims: Seq::empty() }
    }

    /// There is a parameter to add digits to.
    pub open spec fn wf(self) -> bool {
        self.params.len() > 0
    }

    /// The parser after `action` on `input`. `Collect` keeps the character as
    /// an intermediate; `Param` opens a parameter at `;` and adds a digit to
    /// the last one at `0` to `9`; `Clear` forgets both lists.
    pub open spec fn perform(self, input: char, action: Action) -> ParserState {
        match action {
            Action::Collect => ParserState { interims: self.interims.push(input), ..self },
            Action::Param => if input == ';' {
                ParserState { params: self.params.push(0), ..self }
            } else if '0' <= input <= '9' {
                ParserState {
                    params: self.params.update(
                        self.params.len() - 1,
                        with_digit(self.params.last(), input as u32 - 0x30),
                    ),
                    ..self
                }
            } else {
                self
            },
            Action::Clear => ParserState { params: seq![0u16], interims: Seq::empty(), ..self },
            _ => self,
        }
    }

    /// What `action` on `input` hands to the emulator, if anything.
    pub open spec fn emits(self, input: char, action: Action) -> Seq<Event> {
        match action {
            Action::Print => seq![Event::Print(input)],
            Action::Execute => seq![Event::Execute(input)],
            Action::CsiDispatch => seq![Event::CsiDispatch(input, self.interims, self.params)],
            Action::EscDispatch => seq![Event::EscDispatch(input, self.interims)],
            _ => Seq::empty(),
        }
    }

    /// The parser after the character `input`. On a change of state the exit
    /// action of the old state, the action of the transition and the entry
    /// action of the new state are taken in this order.
    pub open spec fn feed(self, input: char) -> ParserState {
        match transition(self.state, input) {
            (Some(next), action) => {
                let left = self.perform(input, self.state.exit());
                let moved = left.perform(input, action);
                let entered = moved.perform(input, next.entry());
                ParserState { state: next, ..entered }
            },
            (None, action) => self.perform(input, action),
        }
    }

    /// What the parser hands to the emulator at the character `input`.
    pub open spec fn feed_events(self, input: char) -> Seq<Event> {
        match transition(self.state, input) {
            (Some(next), action) => {
                let left = self.perform(input, self.state.exit());
                let moved = left.perform(input, action);
                self.emits(input, self.state.exit()) + left.emits(input, action) + moved.emits(
                    input,
                    next.entry(),
                )
            },
            (None, action) => self.emits(input, action),
        }
    }

    /// The parser after the characters of `input`.
    pub open spec fn feed_str(self, input: Seq<char>) -> ParserState
        decreases input.len(),
    {
        if input.len() == 0 {
            self
        } else {
            self.feed_str(input.drop_last()).feed(input.last())
        }
    }

    /// What the parser hands to the emulator over the characters of `input`.
    pub open spec fn feed_str_events(self, input: Seq<char>) -> Seq<Event>
        decreases input.len(),
    {
        if input.len() == 0 {
            Seq::empty()
        } else {
            self.feed_str_events(input.drop_last()) + self.feed_str(
                input.drop_last(),
            ).feed_events(input.last())
        }
    }
}

/// Feeding one more character is a step from where the parser stood, and
/// adds the events of that step.
pub proof fn lemma_feed_str_push(parser: ParserState, input: Seq<char>, next: char)
    ensures
        parser.feed_str(input.push(next)) == parser.feed_str(input).feed(next),
        parser.feed_str_events(input.push(next)) == parser.feed_str_events(input)
            + parser.feed_str(input).feed_events(next),
{
    assert(input.push(next).drop_last() =~= input);
    assert(input.push(next).last() == next);
}

/// An escape character takes the parser to the escape state from wherever
/// it stands, with one parameter of zero and no intermediates, and hands
/// nothing to the emulator.
pub proof fn lemma_escape_starts_over(parser: ParserState)
    ensures
        parser.feed('\u{1b}') == (ParserState {
            state: State::Esc,
            params: seq![0u16],
            interims: Seq::empty(),
        }),
        parser.feed_events('\u{1b}') == Seq::<Event>::empty(),
{
    assert(parser.emits('\u{1b}', parser.state.exit()) + parser.emits('\u{1b}', Action::Ignore)
        + parser.emits('\u{1b}', Action::Clear) =~= Seq::<Event>::empty());
}

/// Feeding one input and then another is feeding the two joined.
pub proof fn lemma_feed_str_joined(parser: ParserState, first: Seq<char>, second: Seq<char>)
    ensures
        parser.feed_str(first + second) == parser.feed_str(first).feed_str(second),
        parser.feed_str_events(first + second) == parser.feed_str_events(first) + parser.feed_str(
            first,
        ).feed_str_events(second),
    decreases second.len(),
{
    if second.len() == 0 {
        assert(first + second =~= first);
        assert(parser.feed_str_events(first) + Seq::<Event>::empty() =~= parser.feed_str_events(
            first,
        ));
    } else {
        lemma_feed_str_joined(parser, first, second.drop_last());
        assert((first + second).drop_last() =~= first + second.drop_last());
        assert((first + second).last() == second.last());
        let before = parser.feed_str_events(first);
        let middle = parser.feed_str(first).feed_str_events(second.drop_last());
        let end = parser.feed_str(first).feed_str(second.drop_last()).feed_events(second.last());
        assert((before + middle) + end =~= before + (middle + end));
    }
}

/// The characters that switch the private mode 1049 on, with `h` as the
/// last of them, or off, with `l`.
pub open spec fn mode_1049_sequence(last: char) -> Seq<char> {
    seq!['\u{1b}', '[', '?', '1', '0', '4', '9', last]
}

/// Wherever the parser stands, the characters that switch the private mode
/// 1049 hand over one control sequence, with the intermediate `?` and the
/// parameter 1049, and leave the parser in the ground state.
pub proof fn lemma_mode_1049_sequence(parser: ParserState, last: char)
    requires
        last == 'h' || last == 'l',
    ensures
        parser.feed_str(mode_1049_sequence(last)).state == State::Ground,
        parser.feed_str(mode_1049_sequence(last)).wf(),
        parser.feed_str_events(mode_1049_sequence(last)) == seq![
            Event::CsiDispatch(last, seq!['?'], seq![1049u16]),
        ],
{
    let s0 = Seq::<char>::empty();
    let s1 = s0.push('\u{1b}');
    let s2 = s1.push('[');
    let s3 = s2.push('?');
    let s4 = s3.push('1');
    let s5 = s4.push('0');
    let s6 = s5.push('4');
    let s7 = s6.push('9');
    let s8 = s7.push(last);
    assert(s8 =~= mode_1049_sequence(last));
    lemma_feed_str_push(parser, s0, '\u{1b}');
    lemma_feed_str_push(parser, s1, '[');
    lemma_feed_str_push(parser, s2, '?');
    lemma_feed_str_push(parser, s3, '1');
    lemma_feed_str_push(parser, s4, '0');
    lemma_feed_str_push(parser, s5, '4');
    lemma_feed_str_push(parser, s6, '9');
    lemma_feed_str_push(parser, s7, last);
    lemma_escape_starts_over(parser);
    let none = Seq::<Event>::empty();
    let p1 = parser.feed_str(s1);
    assert(p1 == parser.feed('\u{1b}'));
    assert(parser.feed_str_events(s1) =~= none);
    let p2 = parser.feed_str(s2);
    assert(p2 =~= ParserState { state: State::CsiEntry, params: seq![0u16], interims: Seq::empty() });
    assert(p1.feed_events('[') =~= none);
    assert(parser.feed_str_events(s2) =~= none);
    let p3 = parser.feed_str(s3);
    assert(p3 =~= ParserState { state: State::CsiParam, params: seq![0u16], interims: seq!['?'] });
    assert(p2.feed_events('?') =~= none);
    assert(parser.feed_str_events(s3) =~= none);
    let p4 = parser.feed_str(s4);
    assert(p4 =~= ParserState { state: State::CsiParam, params: seq![1u16], interims: seq!['?'] });
    assert(p3.feed_events('1') =~= none);
    assert(parser.feed_str_events(s4) =~= none);
    let p5 = parser.feed_str(s5);
    assert(p5 =~= ParserState { state: State::CsiParam, params: seq![10u16], interims: seq!['?'] });
    assert(p4.feed_events('0') =~= none);
    assert(parser.feed_str_events(s5) =~= none);
    let p6 = parser.feed_str(s6);
    assert(p6 =~= ParserState { state: State::CsiParam, params: seq![104u16], interims: seq!['?'] });
    assert(p5.feed_events('4') =~= none);
    assert(parser.feed_str_events(s6) =~= none);
    let p7 = parser.feed_str(s7);
    assert(p7 =~= ParserState {
        state: State::CsiParam,
        params: seq![1049u16],
        interims: seq!['?'],
    });
    assert(p6.feed_events('9') =~= none);
    assert(parser.feed_str_events(s7) =~= none);
    let p8 = parser.feed_str(s8);
    assert(p8 =~= ParserState { state: State::Ground, params: seq![1049u16], interims: seq!['?'] });
    assert(p7.feed_events(last) =~= seq![Event::CsiDispatch(last, seq!['?'], seq![1049u16])]);
    assert(parser.feed_str_events(s8) =~= seq![
        Event::CsiDispatch(last, seq!['?'], seq![1049u16]),
    ]);
}

/// An emulator that handled one run of events and then another has handled
/// the two runs joined.
pub proof fn lemma_handles_all_joined<T: Emulator>(
    pre: T,
    first: Seq<Event>,
    mid: T,
    second: Seq<Event>,
    post: T,
)
    requires
        handles_all(pre, first, mid),
        handles_all(mid, second, post),
    ensures
        handles_all(pre, first + second, post),
    decreases second.len(),
{
    if second.len() == 0 {
        assert(first + second =~= first);
    } else {
        let last_mid = choose|m: T|
            #![trigger m.handles(second.last(), &post)]
            handles_all(mid, second.drop_last(), m) && m.handles(second.last(), &post);
        lemma_handles_all_joined(pre, first, mid, second.drop_last(), last_mid);
        assert((first + second).drop_last() =~= first + second.drop_last());
        assert((first + second).last() == second.last());
        assert(handles_all(pre, (first + second).drop_last(), last_mid));
    }
}

/// An emulator that handled one event has handled the run of that event alone.
pub proof fn lemma_handles_all_one<T: Emulator>(pre: T, event: Event, post: T)
    requires
        pre.handles(event, &post),
    ensures
        handles_all(pre, seq![event], post),
{
    let events = seq![event];
    assert(events.drop_last() =~= Seq::<Event>::empty());
    assert(events.last() == event);
    assert(handles_all(pre, events.drop_last(), pre));
    assert(pre.handles(events.last(), &post));
}

/// A parser of the DEC ANSI control language.
#[derive(Debug)]
pub struct Parser {
    state: State,
    params: Vec<u16>,
    interims: Vec<char>,
}

impl View for Parser {
    type V = ParserState;

    closed spec fn view(&self) -> ParserState {
        ParserState { state: self.state, params: self.params@, interims: self.interims@ }
    }
}

impl Default for Parser {
    fn default() -> (r: Self)
        ensures
            r@ == ParserState::initial(),
            r.wf(),
    {
        Parser { state: State::Ground, params: vec![0], interims: Vec::new() }
    }
}

impl Parser {
    /// There is a parameter to add digits to.
    pub open spec fn wf(&self) -> bool {
        self@.wf()
    }

    pub fn feed_str<T: Emulator>(&mut self, input: &str, terminal: &mut T)
        requires
            old(self).wf(),
            old(terminal).valid(),
        ensures
            final(self).wf(),
            final(self)@ == old(self)@.feed_str(input@),
            final(terminal).valid(),
            handles_all(*old(terminal), old(self)@.feed_str_events(input@), *final(terminal)),
    {
        let ghost mut done: int = 0;
        for ch in it: input.chars()
            invariant
                it.seq() == input@,
                done == it.index(),
                self.wf(),
                terminal.valid(),
                self@ == old(self)@.feed_str(input@.take(done)),
                handles_all(
                    *old(terminal),
                    old(self)@.feed_str_events(input@.take(done)),
                    *terminal,
                ),
        {
            let ghost before = *terminal;
            assert(0 <= done < input@.len());
            assert(ch == input@[done]);
            self.feed(ch, terminal);
            proof {
                let prefix = input@.take(done + 1);
                assert(prefix.drop_last() =~= input@.take(done));
                assert(prefix.last() == ch);
                lemma_handles_all_joined(
                    *old(terminal),
                    old(self)@.feed_str_events(input@.take(done)),
                    before,
                    old(self)@.feed_str(input@.take(done)).feed_events(ch),
                    *terminal,
                );
                done = done + 1;
            }
        }
        assert(input@.take(input@.len() as int) =~= input@);
    }

    pub fn feed<T: Emulator>(&mut self, input: char, terminal: &mut T)
        requires
            old(self).wf(),
            old(terminal).valid(),
        ensures
            final(self).wf(),
            final(self)@ == old(self)@.feed(input),
            final(terminal).valid(),
            handles_all(*old(terminal), old(self)@.feed_events(input), *final(terminal)),
    {
        match self.get_state_change(input) {
            (Some(state), action) => {
                let ghost t0 = *terminal;
                let ghost p0 = self@;
                let exit = self.state.exit_action();
                self.perform_action(input, terminal, exit);
                let ghost t1 = *terminal;
                let ghost p1 = self@;
                self.perform_action(input, terminal, action);
                let ghost t2 = *terminal;
                let ghost p2 = self@;
                self.perform_action(input, terminal, state.enter_action());
                self.state = state;
                proof {
                    lemma_handles_all_joined(
                        t0,
                        p0.emits(input, exit),
                        t1,
                        p1.emits(input, action),
                        t2,
                    );
                    lemma_handles_all_joined(
                        t0,
                        p0.emits(input, exit) + p1.emits(input, action),
                        t2,
                        p2.emits(input, state.entry()),
                        *terminal,
                    );
                }
            },
            (None, action) => {
                self.perform_action(input, terminal, action);
            },
        };
    }

    pub fn get_state_change(&self, input: char) -> (r: (Option<State>, Action))
        ensures
            r == transition(self@.state, input),
    {
        match (&self.state, input) {
            (_, '\u{18}') => (Some(State::Ground), Action::Execute),
            (_, '\u{1a}') => (Some(State::Ground), Action::Execute),
            (_, '\u{80}'..='\u{8f}') => (Some(State::Ground), Action::Execute),
            (_, '\u{91}'..='\u{97}') => (Some(State::Ground), Action::Execute),
            (_, '\u{99}') => (Some(State::Ground), Action::Execute),
            (_, '\u{9a}') => (Some(State::Ground), Action::Execute),
            (_, '\u{9c}') => (Some(State::Ground), Action::Ignore),
            (_, '\u{1b}') => (Some(State::Esc), Action::Ignore),
            (_, '\u{98}') => (Some(State::SosPmApcString), Action::Ignore),
            (_, '\u{9e}') => (Some(State::SosPmApcString), Action::Ignore),
            (_, '\u{9f}') => (Some(State::SosPmApcString), Action::Ignore),
            (_, '\u{90}') => (Some(State::DcsEntry), Action::Ignore),
            (_, '\u{9d}') => (Some(State::OscString), Action::Ignore),
            (_, '\u{9b}') => (Some(State::CsiEntry), Action::Ignore),
            (State::Ground, '\u{00}'..='\u{17}') => (None, Action::Execute),
            (State::Ground, '\u{19}') => (None, Action::Execute),
            (State::Ground, '\u{1c}'..='\u{1f}') => (None, Action::Execute),
            (State::Ground, '\u{20}'..='\u{7f}') => (None, Action::Print),
            (State::Ground, '\u{a0}'..='\u{10ffff}') => (None, Action::Print),
            (State::Esc, '\u{00}'..='\u{17}') => (None, Action::Execute),
            (State::Esc, '\u{19}') => (None, Action::Execute),
            (State::Esc, '\u{1c}'..='\u{1f}') => (None, Action::Execute),
            (State::Esc, '\u{7f}') => (None, Action::Ignore),
            (State::Esc, '\u{20}'..='\u{2f}') => (Some(State::EscInterim), Action::Collect),
            (State::Esc, '\u{30}'..='\u{4f}') => (Some(State::Ground), Action::EscDispatch),
            (State::Esc, '\u{51}'..='\u{57}') => (Some(State::Ground), Action::EscDispatch),
            (State::Esc, '\u{59}') => (Some(State::Ground), Action::EscDispatch),
            (State::Esc, '\u{5a}') => (Some(State::Ground), Action::EscDispatch),
            (State::Esc, '\u{5c}') => (Some(State::Ground), Action::EscDispatch),
            (State::Esc, '\u{60}'..='\u{7e}') => (Some(State::Ground), Action::EscDispatch),
            (State::Esc, '\u{50}') => (Some(State::DcsEntry), Action::Ignore),
            (State::Esc, '\u{58}') => (Some(State::SosPmApcString), Action::Ignore),
            (State::Esc, '\u{5e}') => (Some(State::SosPmApcString), Action::Ignore),
            (State::Esc, '\u{5f}') => (Some(State::SosPmApcString), Action::Ignore),
            (State::Esc, '\u{5b}') => (Some(State::CsiEntry), Action::Ignore),
            (State::Esc, '\u{5d}') => (Some(State::OscString), Action::Ignore),
            (State::EscInterim, '\u{00}'..='\u{17}') => (None, Action::Execute),
            (State::EscInterim, '\u{19}') => (None, Action::Execute),
            (State::EscInterim, '\u{1c}'..='\u{1f}') => (None, Action::Execute),
            (State::EscInterim, '\u{20}'..='\u{2f}') => (None, Action::Collect),
            (State::EscInterim, '\u{7f}') => (None, Action::Ignore),
            (State::EscInterim, '\u{30}'..='\u{7e}') => (Some(State::Ground), Action::EscDispatch),
            (State::CsiEntry, '\u{00}'..='\u{17}') => (None, Action::Execute),
            (State::CsiEntry, '\u{19}') => (None, Action::Execute),
            (State::CsiEntry, '\u{1c}'..='\u{1f}') => (None, Action::Execute),
            (State::CsiEntry, '\u{7f}') => (None, Action::Ignore),
            (State::CsiEntry, '\u{20}'..='\u{2f}') => (Some(State::CsiInterim), Action::Collect),
            (State::CsiEntry, '\u{30}'..='\u{39}') => (Some(State::CsiParam), Action::Param),
            (State::CsiEntry, '\u{3b}') => (Some(State::CsiParam), Action::Param),
            (State::CsiEntry, '\u{3c}'..='\u{3f}') => (Some(State::CsiParam), Action::Collect),
            (State::CsiEntry, '\u{3a}') => (Some(State::CsiIgnore), Action::Ignore),
            (State::CsiEntry, '\u{40}'..='\u{7e}') => (Some(State::Ground), Action::CsiDispatch),
            (State::CsiIgnore, '\u{00}'..='\u{17}') => (None, Action::Execute),
            (State::CsiIgnore, '\u{19}') => (None, Action::Execute),
            (State::CsiIgnore, '\u{1c}'..='\u{1f}') => (None, Action::Execute),
            (State::CsiIgnore, '\u{20}'..='\u{3f}') => (None, Action::Ignore),
            (State::CsiIgnore, '\u{7f}') => (None, Action::Ignore),
            (State::CsiIgnore, '\u{40}'..='\u{7e}') => (Some(State::Ground), Action::Ignore),
            (State::CsiParam, '\u{00}'..='\u{17}') => (None, Action::Execute),
            (State::CsiParam, '\u{19}') => (None, Action::Execute),
            (State::CsiParam, '\u{1c}'..='\u{1f}') => (None, Action::Execute),
            (State::CsiParam, '\u{30}'..='\u{39}') => (None, Action::Param),
            (State::CsiParam, '\u{3b}') => (None, Action::Param),
            (State::CsiParam, '\u{7f}') => (None, Action::Ignore),
            (State::CsiParam, '\u{20}'..='\u{2f}') => (Some(State::CsiInterim), Action::Collect),
            (State::CsiParam, '\u{3a}') => (Some(State::CsiIgnore), Action::Ignore),
            (State::CsiParam, '\u{3c}'..='\u{3f}') => (Some(State::CsiIgnore), Action::Ignore),
            (State::CsiParam, '\u{40}'..='\u{7e}') => (Some(State::Ground), Action::CsiDispatch),
            (State::CsiInterim, '\u{00}'..='\u{17}') => (None, Action::Execute),
            (State::CsiInterim, '\u{19}') => (None, Action::Execute),
            (State::CsiInterim, '\u{1c}'..='\u{1f}') => (None, Action::Execute),
            (State::CsiInterim, '\u{20}'..='\u{2f}') => (None, Action::Collect),
            (State::CsiInterim, '\u{7f}') => (None, Action::Ignore),
            (State::CsiInterim, '\u{30}'..='\u{3f}') => (Some(State::CsiIgnore), Action::Ignore),
            (State::CsiInterim, '\u{40}'..='\u{7e}') => (Some(State::Ground), Action::CsiDispatch),
            (State::DcsEntry, '\u{00}'..='\u{17}') => (None, Action::Ignore),
            (State::DcsEntry, '\u{19}') => (None, Action::Ignore),
            (State::DcsEntry, '\u{1c}'..='\u{1f}') => (None, Action::Ignore),
            (State::DcsEntry, '\u{7f}') => (None, Action::Ignore),
            (State::DcsEntry, '\u{20}'..='\u{2f}') => (Some(State::DcsInterim), Action::Collect),
            (State::DcsEntry, '\u{30}'..='\u{39}') => (Some(State::DcsParam), Action::Param),
            (State::DcsEntry, '\u{3b}') => (Some(State::DcsParam), Action::Param),
            (State::DcsEntry, '\u{3a}') => (Some(State::DcsIgnore), Action::Ignore),
            (State::DcsEntry, '\u{3c}'..='\u{3f}') => (Some(State::DcsParam), Action::Collect),
            (State::DcsEntry, '\u{40}'..='\u{7e}') => (Some(State::DcsPassthrough), Action::Ignore),
            (State::DcsInterim, '\u{00}'..='\u{17}') => (None, Action::Ignore),
            (State::DcsInterim, '\u{19}') => (None, Action::Ignore),
            (State::DcsInterim, '\u{1c}'..='\u{1f}') => (None, Action::Ignore),
            (State::DcsInterim, '\u{20}'..='\u{2f}') => (None, Action::Collect),
            (State::DcsInterim, '\u{7f}') => (None, Action::Ignore),
            (State::DcsInterim, '\u{30}'..='\u{3f}') => (Some(State::DcsIgnore), Action::Ignore),
            (State::DcsInterim, '\u{40}'..='\u{7e}') => (
                Some(State::DcsPassthrough),
                Action::Ignore,
            ),
            (State::DcsIgnore, '\u{00}'..='\u{17}') => (None, Action::Ignore),
            (State::DcsIgnore, '\u{19}') => (None, Action::Ignore),
            (State::DcsIgnore, '\u{1c}'..='\u{1f}') => (None, Action::Ignore),
            (State::DcsIgnore, '\u{20}'..='\u{7f}') => (None, Action::Ignore),
            (State::DcsParam, '\u{00}'..='\u{17}') => (None, Action::Ignore),
            (State::DcsParam, '\u{19}') => (None, Action::Ignore),
            (State::DcsParam, '\u{1c}'..='\u{1f}') => (None, Action::Ignore),
            (State::DcsParam, '\u{30}'..='\u{39}') => (None, Action::Param),
            (State::DcsParam, '\u{3b}') => (None, Action::Param),
            (State::DcsParam, '\u{7f}') => (None, Action::Ignore),
            (State::DcsParam, '\u{20}'..='\u{2f}') => (Some(State::DcsInterim), Action::Collect),
            (State::DcsParam, '\u{3a}') => (Some(State::DcsIgnore), Action::Ignore),
            (State::DcsParam, '\u{3c}'..='\u{3f}') => (Some(State::DcsIgnore), Action::Ignore),
            (State::DcsParam, '\u{40}'..='\u{7e}') => (Some(State::DcsPassthrough), Action::Ignore),
            (State::DcsPassthrough, '\u{00}'..='\u{17}') => (None, Action::Put),
            (State::DcsPassthrough, '\u{19}') => (None, Action::Put),
            (State::DcsPassthrough, '\u{1c}'..='\u{1f}') => (None, Action::Put),
            (State::DcsPassthrough, '\u{20}'..='\u{7e}') => (None, Action::Put),
            (State::DcsPassthrough, '\u{7f}') => (None, Action::Ignore),
            (State::SosPmApcString, '\u{00}'..='\u{17}') => (None, Action::Ignore),
            (State::SosPmApcString, '\u{19}') => (None, Action::Ignore),
            (State::SosPmApcString, '\u{1c}'..='\u{1f}') => (None, Action::Ignore),
            (State::SosPmApcString, '\u{20}'..='\u{7f}') => (None, Action::Ignore),
            (State::OscString, '\u{00}'..='\u{06}') => (None, Action::Ignore),
            (State::OscString, '\u{08}'..='\u{17}') => (None, Action::Ignore),
            (State::OscString, '\u{19}') => (None, Action::Ignore),
            (State::OscString, '\u{1c}'..='\u{1f}') => (None, Action::Ignore),
            (State::OscString, '\u{20}'..='\u{7f}') => (None, Action::OscPut),
            (State::OscString, '\u{07}') => (Some(State::Ground), Action::Ignore),
            _ => (None, Action::Ignore),
        }
    }

    pub fn perform_action<T: Emulator>(&mut self, input: char, terminal: &mut T, action: Action)
        requires
            old(self).wf(),
            old(terminal).valid(),
        ensures
            final(self).wf(),
            final(self)@ == old(self)@.perform(input, action),
            final(terminal).valid(),
            handles_all(*old(terminal), old(self)@.emits(input, action), *final(terminal)),
    {
        match action {
            Action::Ignore => (),
            Action::Print => {
                terminal.print(input);
                proof {
                    lemma_handles_all_one(*old(terminal), Event::Print(input), *terminal);
                }
            },
            Action::Execute => {
                terminal.execute(input);
                proof {
                    lemma_handles_all_one(*old(terminal), Event::Execute(input), *terminal);
                }
            },
            Action::CsiDispatch => {
                terminal.csi_dispatch(input, self.interims.as_slice(), self.params.as_slice());
                proof {
                    lemma_handles_all_one(
                        *old(terminal),
                        Event::CsiDispatch(input, self.interims@, self.params@),
                        *terminal,
                    );
                }
            },
            Action::EscDispatch => {
                terminal.esc_dispatch(input, self.interims.as_slice());
                proof {
                    lemma_handles_all_one(
                        *old(terminal),
                        Event::EscDispatch(input, self.interims@),
                        *terminal,
                    );
                }
            },
            Action::Collect => self.interims.push(input),
            Action::Param => {
                if input == ';' {
                    self.params.push(0);
                } else if '0' <= input && input <= '9' {
                    let digit: u16 = (input as u32 - 0x30) as u16;
                    let last = self.params.len() - 1;
                    let p = self.params[last];
                    let next: u16 = if p > (u16::MAX - digit) / 10 {
                        u16::MAX
                    } else {
                        10 * p + digit
                    };
                    self.params[last] = next;
                }
            },
            Action::Clear => {
                self.params = vec![0];
                self.interims = Vec::new();
            },
            Action::Hook => (),
            Action::Put => (),
            Action::Unhook => (),
            Action::OscStart => (),
            Action::OscPut => (),
            Action::OscEnd => (),
        }
        assert(self@ =~= old(self)@.perform(input, action));
    }
}

} // verus!
