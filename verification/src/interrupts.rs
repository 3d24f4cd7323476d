//! The trap table: which vectors are bound, to what kind of handler and on
//! which stack; what state a trap leaves the kernel in; and what the two
//! handlers log.
use crate::framebuffer::{
    count_line_feeds, logger_view, FrameBufferWriter, _print, _print_color_rgb,
};
use crate::laws::{
    lemma_can_print_concat, lemma_line_feeds_concat, lemma_print_concat, lemma_put_str_concat,
    lemma_supported_format_never_fails,
};
use crate::model::{can_print, line_feeds, print_to, white, ConsoleState, WriteError};
use vstd::prelude::*;

verus! {

/// The vector of the breakpoint trap.
pub const BREAKPOINT_VECTOR: u8 = 3;

/// The vector of the double fault.
pub const DOUBLE_FAULT_VECTOR: u8 = 8;

/// The number of dedicated stacks that the processor can switch to; a stack
/// index is valid below it.
pub const DEDICATED_STACKS: u16 = 7;

/// What becomes of the kernel once a handler has logged its trap.
#[derive(Clone, Copy, Debug, PartialEq, Eq)]
pub enum HandlerKind {
    /// The handler returns and execution goes on after the trap.
    Resumable,
    /// The handler halts for good.
    Fatal,
}

/// One bound vector: the kind of its handler, and the dedicated stack that
/// the processor switches to before it runs the handler, if any.
#[derive(Clone, Copy, Debug, PartialEq, Eq)]
pub struct VectorEntry {
    /// Whether the handler returns.
    pub kind: HandlerKind,
    /// The dedicated stack that the handler runs on, if it has one.
    pub stack_index: Option<u16>,
}

/// The vector table. It is made once and not changed afterwards.
#[derive(Clone, Copy, Debug)]
pub struct TrapTable {
    double_fault_stack: u16,
}

/// What the kernel is doing with regard to traps.
#[derive(Clone, Copy, Debug, PartialEq, Eq)]
pub enum TrapState {
    /// No handler is running.
    Idle,
    /// The breakpoint handler is running.
    HandlingBreakpoint,
    /// The double-fault handler is running, or has halted. Nothing leaves
    /// this state.
    HandlingDoubleFault,
}

/// The table whose double-fault vector is bound to the dedicated stack
/// `stack_index`: vector 3 with a resumable handler on the current stack,
/// vector 8 with a fatal one on that stack, and no other vector.
pub open spec fn table_with(stack_index: u16) -> Map<u8, VectorEntry> {
    map![
        BREAKPOINT_VECTOR => VectorEntry { kind: HandlerKind::Resumable, stack_index: None },
        DOUBLE_FAULT_VECTOR => VectorEntry {
            kind: HandlerKind::Fatal,
            stack_index: Some(stack_index),
        },
    ]
}

/// The state after the trap `vector` has been delivered in `state`, or `None`
/// where the table binds no handler to it. A fatal handler takes over from
/// any state; a resumable one runs unless a fatal one has taken over.
pub open spec fn after_trap(table: Map<u8, VectorEntry>, state: TrapState, vector: u8) -> Option<
    TrapState,
> {
    if !table.dom().contains(vector) {
        None
    } else if table[vector].kind is Fatal || state is HandlingDoubleFault {
        Some(TrapState::HandlingDoubleFault)
    } else {
        Some(TrapState::HandlingBreakpoint)
    }
}

/// The state after the running handler has returned: idle, unless the
/// handler was the fatal one, which does not return.
pub open spec fn after_return(state: TrapState) -> TrapState {
    if state is HandlingDoubleFault {
        TrapState::HandlingDoubleFault
    } else {
        TrapState::Idle
    }
}

impl View for TrapTable {
    type V = Map<u8, VectorEntry>;

    closed spec fn view(&self) -> Map<u8, VectorEntry> {
        table_with(self.double_fault_stack)
    }
}

impl TrapTable {
    #[verifier::type_invariant]
    spec fn inv(&self) -> bool {
        self.double_fault_stack < DEDICATED_STACKS
    }

    /// The entry bound to `vector`, if any.
    pub fn entry(&self, vector: u8) -> (entry: Option<VectorEntry>)
        ensures
            entry is Some <==> self@.dom().contains(vector),
            entry matches Some(e) ==> e == self@[vector],
    {
        if vector == BREAKPOINT_VECTOR {
            Some(VectorEntry { kind: HandlerKind::Resumable, stack_index: None })
        } else if vector == DOUBLE_FAULT_VECTOR {
            Some(
                VectorEntry {
                    kind: HandlerKind::Fatal,
                    stack_index: Some(self.double_fault_stack),
                },
            )
        } else {
            None
        }
    }

    /// Decides what the delivery of the trap `vector` in `state` leads to: the
    /// next state and the kind of handler to run, or `None` where no handler
    /// is bound to the vector.
    pub fn deliver(&self, state: TrapState, vector: u8) -> (next: Option<(TrapState, HandlerKind)>)
        ensures
            next is Some <==> self@.dom().contains(vector),
            next matches Some((after, kind)) ==> after_trap(self@, state, vector) == Some(after)
                && kind == self@[vector].kind,
    {
        match self.entry(vector) {
            None => None,
            Some(entry) => {
                let after = match (entry.kind, state) {
                    (HandlerKind::Fatal, _) => TrapState::HandlingDoubleFault,
                    (HandlerKind::Resumable, TrapState::HandlingDoubleFault) => {
                        TrapState::HandlingDoubleFault
                    },
                    (HandlerKind::Resumable, _) => TrapState::HandlingBreakpoint,
                };
                Some((after, entry.kind))
            },
        }
    }
}

/// Makes the vector table, with the double fault bound to the dedicated
/// stack `double_fault_stack_index`. Refuses an index that names no dedicated
/// stack.
pub fn init_idt(double_fault_stack_index: u16) -> (table: Option<TrapTable>)
    ensures
        table is Some <==> double_fault_stack_index < DEDICATED_STACKS,
        table matches Some(t) ==> t@ == table_with(double_fault_stack_index),
{
    if double_fault_stack_index < DEDICATED_STACKS {
        Some(TrapTable { double_fault_stack: double_fault_stack_index })
    } else {
        None
    }
}

/// Decides the state in which the return of the running handler leaves the
/// kernel.
pub fn handler_returned(state: TrapState) -> (next: TrapState)
    ensures
        next == after_return(state),
{
    match state {
        TrapState::HandlingDoubleFault => TrapState::HandlingDoubleFault,
        _ => TrapState::Idle,
    }
}

/// The colour of the rules that set a trap's log apart from other output.
pub open spec fn red() -> [u8; 3] {
    [255u8, 0u8, 0u8]
}

/// `text` printed in `color` after what came before, unless that has failed.
pub open spec fn then_print(
    before: (Option<ConsoleState>, bool),
    text: Seq<char>,
    color: [u8; 3],
) -> (Option<ConsoleState>, bool) {
    if before.1 {
        print_to(before.0, text, color)
    } else {
        before
    }
}

/// The decimal digit `d` as a character.
pub open spec fn digit_char(d: nat) -> char {
    ((48 + d) as u8) as char
}

/// `n` in decimal, without leading zeros.
pub open spec fn decimal(n: nat) -> Seq<char>
    decreases n,
{
    if n < 10 {
        seq![digit_char(n)]
    } else {
        decimal(n / 10).push(digit_char(n % 10))
    }
}

/// The rule above a breakpoint's log, with the line feed that sets it apart.
pub open spec fn rule_above() -> Seq<char> {
    "\n------------------------------------\n"@
}

/// The rule below a breakpoint's log, with the blank line after it.
pub open spec fn rule_below() -> Seq<char> {
    "------------------------------------\n\n"@
}

/// What a breakpoint's log says between its rules: the name of the trap, and
/// on the lines after it the frame it was taken in.
pub open spec fn breakpoint_text(stack_frame: Seq<char>) -> Seq<char> {
    "EXCEPTION: BREAKPOINT\n"@ + stack_frame + "\n"@
}

/// All that the breakpoint handler prints, rules and text in a row.
pub open spec fn breakpoint_log(stack_frame: Seq<char>) -> Seq<char> {
    rule_above() + breakpoint_text(stack_frame) + rule_below()
}

/// What the breakpoint handler leaves on the console: a red rule, in white
/// the name of the trap and the frame it was taken in, and a red rule again.
pub open spec fn breakpoint_logged(console: Option<ConsoleState>, stack_frame: Seq<char>) -> (
    Option<ConsoleState>,
    bool,
) {
    let above = print_to(console, rule_above(), red());
    let text = then_print(above, breakpoint_text(stack_frame), white());
    then_print(text, rule_below(), red())
}

/// All that the double-fault handler prints: between two rules, the name of
/// the fault, the frame it was taken in and the error code in decimal.
pub open spec fn double_fault_log(stack_frame: Seq<char>, error_code: u64) -> Seq<char> {
    "\n------------------------------------\nEXCEPTION: DOUBLE FAULT\n"@ + stack_frame
        + "\nError Code: "@ + decimal(error_code as nat)
        + "\n------------------------------------\n\n"@
}

/// What the double-fault handler leaves on the console: its log, in white.
pub open spec fn double_fault_logged(
    console: Option<ConsoleState>,
    stack_frame: Seq<char>,
    error_code: u64,
) -> (Option<ConsoleState>, bool) {
    print_to(console, double_fault_log(stack_frame, error_code), white())
}

/// No digit is a line feed.
pub proof fn lemma_decimal_has_no_line_feed(n: nat)
    ensures
        line_feeds(decimal(n)) == 0,
    decreases n,
{
    reveal_with_fuel(line_feeds, 2);
    let last = seq![digit_char(n % 10)];
    assert(last.drop_first() =~= Seq::<char>::empty());
    assert(line_feeds(last) == 0);
    if n >= 10 {
        lemma_decimal_has_no_line_feed(n / 10);
        assert(decimal(n) =~= decimal(n / 10) + last);
        lemma_line_feeds_concat(decimal(n / 10), last);
    } else {
        assert(decimal(n) =~= last);
    }
}

/// Without a console neither handler does anything, and both succeed. With
/// one in a supported pixel format both succeed too: the breakpoint's log is
/// the red rule, one white write of name, frame and line feed, and the red
/// rule; the double fault's is one white write of the whole.
pub proof fn lemma_trap_logs(s: ConsoleState, stack_frame: Seq<char>, error_code: u64)
    requires
        !(s.info.pixel_format is Unknown),
    ensures
        breakpoint_logged(None, stack_frame) == (None::<ConsoleState>, true),
        double_fault_logged(None, stack_frame, error_code) == (None::<ConsoleState>, true),
        breakpoint_logged(Some(s), stack_frame) == (
            Some(
                s.put_str(rule_above(), red()).0.put_str(
                    breakpoint_text(stack_frame),
                    white(),
                ).0.put_str(rule_below(), red()).0,
            ),
            true,
        ),
        double_fault_logged(Some(s), stack_frame, error_code) == (
            Some(s.put_str(double_fault_log(stack_frame, error_code), white()).0),
            true,
        ),
{
    let above = s.put_str(rule_above(), red()).0;
    let text = above.put_str(breakpoint_text(stack_frame), white()).0;
    lemma_supported_format_never_fails(s, rule_above(), red());
    lemma_supported_format_never_fails(above, breakpoint_text(stack_frame), white());
    lemma_supported_format_never_fails(text, rule_below(), red());
    lemma_supported_format_never_fails(s, double_fault_log(stack_frame, error_code), white());
}

/// Tests whether the logger, if one has been set up, can take the log of a
/// breakpoint taken in `stack_frame`.
pub fn breakpoint_fits(logger: &Option<FrameBufferWriter>, stack_frame: &str) -> (ok: bool)
    ensures
        ok == can_print(logger_view(*logger), breakpoint_log(stack_frame@)),
{
    match logger {
        None => true,
        Some(writer) => {
            let left = writer.line_feeds_left();
            let ghost above = "\n------------------------------------\n"@;
            let ghost name = "EXCEPTION: BREAKPOINT\n"@;
            let ghost feed = "\n"@;
            let ghost below = "------------------------------------\n\n"@;
            proof {
                lemma_line_feeds_concat(above + (name + stack_frame@ + feed), below);
                lemma_line_feeds_concat(above, name + stack_frame@ + feed);
                lemma_line_feeds_concat(name + stack_frame@, feed);
                lemma_line_feeds_concat(name, stack_frame@);
            }
            let n = match count_line_feeds("\n------------------------------------\n", 0, left) {
                Some(n) => n,
                None => {
                    return false;
                },
            };
            let n = match count_line_feeds("EXCEPTION: BREAKPOINT\n", n, left) {
                Some(n) => n,
                None => {
                    return false;
                },
            };
            let n = match count_line_feeds(stack_frame, n, left) {
                Some(n) => n,
                None => {
                    return false;
                },
            };
            let n = match count_line_feeds("\n", n, left) {
                Some(n) => n,
                None => {
                    return false;
                },
            };
            count_line_feeds("------------------------------------\n\n", n, left).is_some()
        },
    }
}

/// Logs a breakpoint trap taken in `stack_frame`. The handler is resumable:
/// it changes nothing but the console.
pub fn breakpoint_handler(logger: &mut Option<FrameBufferWriter>, stack_frame: &str) -> (r: Result<
    (),
    WriteError,
>)
    requires
        can_print(logger_view(*old(logger)), breakpoint_log(stack_frame@)),
    ensures
        logger_view(*final(logger)) == breakpoint_logged(logger_view(*old(logger)), stack_frame@).0,
        r is Ok == breakpoint_logged(logger_view(*old(logger)), stack_frame@).1,
{
    let ghost start = logger_view(*logger);
    let ghost name = "EXCEPTION: BREAKPOINT\n"@;
    let ghost feed = "\n"@;
    proof {
        if let Some(writer) = &*logger {
            use_type_invariant(writer);
        }
        assert(breakpoint_log(stack_frame@) =~= rule_above() + (breakpoint_text(stack_frame@)
            + rule_below()));
        lemma_can_print_concat(
            start,
            rule_above(),
            breakpoint_text(stack_frame@) + rule_below(),
            red(),
        );
    }
    match _print_color_rgb(logger, "\n------------------------------------\n", [255, 0, 0]) {
        Ok(()) => {},
        Err(e) => {
            return Err(e);
        },
    }
    let ghost above = logger_view(*logger);
    proof {
        lemma_can_print_concat(above, breakpoint_text(stack_frame@), rule_below(), white());
        assert(breakpoint_text(stack_frame@) =~= name + (stack_frame@ + feed));
        lemma_can_print_concat(above, name, stack_frame@ + feed, white());
        lemma_print_concat(above, name, stack_frame@ + feed, white());
    }
    match _print(logger, "EXCEPTION: BREAKPOINT\n") {
        Ok(()) => {},
        Err(e) => {
            return Err(e);
        },
    }
    let ghost named = logger_view(*logger);
    proof {
        lemma_can_print_concat(named, stack_frame@, feed, white());
        lemma_print_concat(named, stack_frame@, feed, white());
    }
    match _print(logger, stack_frame) {
        Ok(()) => {},
        Err(e) => {
            return Err(e);
        },
    }
    match _print(logger, "\n") {
        Ok(()) => {},
        Err(e) => {
            return Err(e);
        },
    }
    _print_color_rgb(logger, "------------------------------------\n\n", [255, 0, 0])
}

/// Prints `n` in decimal, in white.
fn print_decimal(logger: &mut Option<FrameBufferWriter>, n: u64) -> (r: Result<(), WriteError>)
    ensures
        logger_view(*final(logger)) == print_to(
            logger_view(*old(logger)),
            decimal(n as nat),
            white(),
        ).0,
        r is Ok == print_to(logger_view(*old(logger)), decimal(n as nat), white()).1,
    decreases n,
{
    let ghost last = seq![digit_char((n % 10) as nat)];
    proof {
        if n >= 10 {
            assert(decimal((n / 10) as nat) + last =~= decimal(n as nat));
            if let Some(state) = logger_view(*old(logger)) {
                lemma_put_str_concat(state, decimal((n / 10) as nat), last, white());
            }
        } else {
            assert(decimal(n as nat) =~= last);
        }
    }
    if n >= 10 {
        match print_decimal(logger, n / 10) {
            Ok(()) => {},
            Err(e) => {
                return Err(e);
            },
        }
    }
    let digit: u8 = (n % 10) as u8;
    let c: char = (48u8 + digit) as char;
    proof {
        reveal_with_fuel(ConsoleState::put_str, 2);
        assert(c == digit_char((n % 10) as nat));
        assert(last[0] == c);
        assert(last.drop_first() =~= Seq::<char>::empty());
        if let Some(state) = logger_view(*logger) {
            assert(state.put_str(last, white()) == state.put_char(c, white()));
        }
    }
    match logger {
        Some(writer) => writer.write_char(c),
        None => Ok(()),
    }
}

/// Tests whether the logger, if one has been set up, can take the log of a
/// double fault taken in `stack_frame` with the given error code.
pub fn double_fault_fits(logger: &Option<FrameBufferWriter>, stack_frame: &str, error_code: u64)
    -> (ok: bool)
    ensures
        ok == can_print(logger_view(*logger), double_fault_log(stack_frame@, error_code)),
{
    match logger {
        None => true,
        Some(writer) => {
            let left = writer.line_feeds_left();
            let ghost name = "\n------------------------------------\nEXCEPTION: DOUBLE FAULT\n"@;
            let ghost label = "\nError Code: "@;
            let ghost code = decimal(error_code as nat);
            let ghost rule = "\n------------------------------------\n\n"@;
            proof {
                lemma_decimal_has_no_line_feed(error_code as nat);
                lemma_line_feeds_concat(name + stack_frame@ + label + code, rule);
                lemma_line_feeds_concat(name + stack_frame@ + label, code);
                lemma_line_feeds_concat(name + stack_frame@, label);
                lemma_line_feeds_concat(name, stack_frame@);
            }
            let n = match count_line_feeds(
                "\n------------------------------------\nEXCEPTION: DOUBLE FAULT\n",
                0,
                left,
            ) {
                Some(n) => n,
                None => {
                    return false;
                },
            };
            let n = match count_line_feeds(stack_frame, n, left) {
                Some(n) => n,
                None => {
                    return false;
                },
            };
            let n = match count_line_feeds("\nError Code: ", n, left) {
                Some(n) => n,
                None => {
                    return false;
                },
            };
            count_line_feeds("\n------------------------------------\n\n", n, left).is_some()
        },
    }
}

/// Logs a double fault taken in `stack_frame` with the given error code. The
/// handler is fatal: once it has logged the fault, the caller halts.
pub fn double_fault_handler(
    logger: &mut Option<FrameBufferWriter>,
    stack_frame: &str,
    error_code: u64,
) -> (r: Result<(), WriteError>)
    requires
        can_print(logger_view(*old(logger)), double_fault_log(stack_frame@, error_code)),
    ensures
        logger_view(*final(logger)) == double_fault_logged(
            logger_view(*old(logger)),
            stack_frame@,
            error_code,
        ).0,
        r is Ok == double_fault_logged(logger_view(*old(logger)), stack_frame@, error_code).1,
{
    let ghost start = logger_view(*logger);
    let ghost name = "\n------------------------------------\nEXCEPTION: DOUBLE FAULT\n"@;
    let ghost label = "\nError Code: "@;
    let ghost code = decimal(error_code as nat);
    let ghost rule = "\n------------------------------------\n\n"@;
    proof {
        if let Some(writer) = &*logger {
            use_type_invariant(writer);
        }
        assert(double_fault_log(stack_frame@, error_code) =~= name + (stack_frame@ + (label + (code
            + rule))));
        lemma_can_print_concat(start, name, stack_frame@ + (label + (code + rule)), white());
        lemma_print_concat(start, name, stack_frame@ + (label + (code + rule)), white());
    }
    match _print(logger, "\n------------------------------------\nEXCEPTION: DOUBLE FAULT\n") {
        Ok(()) => {},
        Err(e) => {
            return Err(e);
        },
    }
    let ghost named = logger_view(*logger);
    proof {
        lemma_can_print_concat(named, stack_frame@, label + (code + rule), white());
        lemma_print_concat(named, stack_frame@, label + (code + rule), white());
    }
    match _print(logger, stack_frame) {
        Ok(()) => {},
        Err(e) => {
            return Err(e);
        },
    }
    let ghost framed = logger_view(*logger);
    proof {
        lemma_can_print_concat(framed, label, code + rule, white());
        lemma_print_concat(framed, label, code + rule, white());
    }
    match _print(logger, "\nError Code: ") {
        Ok(()) => {},
        Err(e) => {
            return Err(e);
        },
    }
    let ghost labelled = logger_view(*logger);
    proof {
        lemma_can_print_concat(labelled, code, rule, white());
        lemma_print_concat(labelled, code, rule, white());
    }
    match print_decimal(logger, error_code) {
        Ok(()) => {},
        Err(e) => {
            return Err(e);
        },
    }
    _print(logger, "\n------------------------------------\n\n")
}

/// A breakpoint that is handled to its end leaves the kernel idle, as it was.
pub proof fn lemma_breakpoint_returns_to_idle(stack_index: u16)
    ensures
        after_trap(table_with(stack_index), TrapState::Idle, BREAKPOINT_VECTOR) == Some(
            TrapState::HandlingBreakpoint,
        ),
        after_return(TrapState::HandlingBreakpoint) == TrapState::Idle,
{
}

/// A double fault takes over from every state, also from its own handler.
pub proof fn lemma_double_fault_takes_over(stack_index: u16, state: TrapState)
    ensures
        after_trap(table_with(stack_index), state, DOUBLE_FAULT_VECTOR) == Some(
            TrapState::HandlingDoubleFault,
        ),
{
}

/// Nothing leaves the double-fault state: neither a bound trap nor the
/// return of a handler.
pub proof fn lemma_double_fault_is_terminal(table: Map<u8, VectorEntry>, vector: u8)
    ensures
        after_return(TrapState::HandlingDoubleFault) == TrapState::HandlingDoubleFault,
        table.dom().contains(vector) ==> after_trap(table, TrapState::HandlingDoubleFault, vector)
            == Some(TrapState::HandlingDoubleFault),
{
}

/// The double fault, and it alone, runs on a dedicated stack, the one that
/// the table was made with.
pub proof fn lemma_only_double_fault_has_own_stack(stack_index: u16, vector: u8)
    ensures
        table_with(stack_index).dom().contains(vector) <==> (vector == BREAKPOINT_VECTOR || vector
            == DOUBLE_FAULT_VECTOR),
        table_with(stack_index)[DOUBLE_FAULT_VECTOR].stack_index == Some(stack_index),
        table_with(stack_index)[BREAKPOINT_VECTOR].stack_index is None,
{
}

} // verus!
