//! The protocol of one command: which request goes to the kernel next, and
//! what the command comes to, given what the kernel answered so far.
//!
//! A session never talks to the kernel itself. It hands out one request at
//! a time; whoever holds the control socket performs it and hands back the
//! reply.

use vstd::prelude::*;
use vstd::string::*;
use crate::args::{Args, Command, Shell};
use crate::error::{Error, ErrorView};
use crate::listing::{get_ifnames, listing};
use crate::mac::{format_spec, parse_spec, Mac};
use crate::wire::{
    decode_hwaddr, decode_perm_addr, encode_hwaddr, hwaddr_of, is_perm_addr_query, mac_of,
    names_of, perm_addr_query, EthtoolPermAddr, SockAddr, IFF_UP,
};

verus! {

/// One request to the kernel. All but the last two are about the session's
/// interface.
#[derive(Debug, Clone, Copy, PartialEq, Eq)]
pub enum Request {
    /// Read the interface's flags.
    GetFlags,
    /// Write the interface's flags.
    SetFlags(i16),
    /// Read the assigned address.
    GetMac,
    /// Assign an address.
    SetMac(SockAddr),
    /// Ask the driver for the permanent address.
    GetPermMac(EthtoolPermAddr),
    /// Ask how many bytes the records of all interfaces take.
    SizeInterfaces,
    /// Read the records of all interfaces into a buffer of so many bytes.
    ReadInterfaces(usize),
}

/// What the kernel answered to a request.
#[derive(Debug, PartialEq, Eq)]
pub enum Reply {
    /// The kernel refused the request.
    Refused,
    /// The kernel took what was written.
    Accepted,
    /// The interface's flags.
    Flags(i16),
    /// The assigned address, in its payload.
    Address(SockAddr),
    /// The permanent-address query, filled in by the driver.
    PermAddress(EthtoolPermAddr),
    /// The number of bytes that the records of all interfaces take.
    Length(usize),
    /// The buffer that the kernel filled with records.
    Records(Vec<u8>),
}

/// Where a session stands: the request that is out, and what is known so far.
#[derive(Debug, Clone, Copy)]
pub enum Phase {
    /// The permanent address is asked for, to assign it.
    AwaitPermForChange,
    /// The flags are asked for, to lower the interface before assigning the address.
    AwaitFlagsDown(Mac),
    /// The lowered flags are being written.
    AwaitDown(Mac),
    /// The address is being assigned.
    AwaitWrite(Mac),
    /// The flags are asked for, to raise the interface again. Holds whether
    /// the address was assigned.
    AwaitFlagsUp(Mac, bool),
    /// The raised flags are being written.
    AwaitUp(Mac, bool),
    /// The assigned address is asked for, to print it.
    AwaitMac,
    /// The permanent address is asked for, to print it.
    AwaitPerm,
    /// The size of all records is asked for. Holds whether the list goes on one line.
    AwaitLength(bool),
    /// The records are being read.
    AwaitRecords(bool),
}

/// A command under way: the interface it is about, and where it stands.
#[derive(Debug)]
pub struct Session {
    pub ifname: String,
    pub phase: Phase,
}

/// What is to happen next.
#[derive(Debug)]
pub enum Step {
    /// Perform the request and give the session the reply.
    Issue(Request, Session),
    /// The command succeeded: print this text.
    Print(String),
    /// Print the completion definitions for a shell.
    Completions(Shell),
    /// The command failed.
    Fail(Error),
}

/// A `Step` with its texts as sequences of characters.
pub enum StepView {
    Issue(Request, Seq<char>, Phase),
    Print(Seq<char>),
    Completions(Shell),
    Fail(ErrorView),
}

impl View for Step {
    type V = StepView;

    open spec fn view(&self) -> StepView {
        match self {
            Step::Issue(request, session) => StepView::Issue(
                *request,
                session.ifname@,
                session.phase,
            ),
            Step::Print(text) => StepView::Print(text@),
            Step::Completions(shell) => StepView::Completions(*shell),
            Step::Fail(error) => StepView::Fail(error@),
        }
    }
}

/// Whether a mask fits the kernel's sixteen-bit flag word.
pub open spec fn fits_flag_word(mask: i32) -> bool {
    -0x8000 <= mask <= 0x7fff
}

/// A flag word with the bits of `clr` cleared and then the bits of `set` set.
pub open spec fn updated_flags(current: i16, set: i16, clr: i16) -> i16 {
    (current & !clr) | set
}

/// The flag word that lowers an interface and changes nothing else.
pub open spec fn lowered(flags: i16) -> i16 {
    updated_flags(flags, 0, IFF_UP as i16)
}

/// The flag word that raises an interface and changes nothing else.
pub open spec fn raised(flags: i16) -> i16 {
    updated_flags(flags, IFF_UP as i16, 0)
}

/// The text that prints an address: its text form and a line feed.
pub open spec fn address_line(mac: Mac) -> Seq<char> {
    format_spec(mac@).push('\n')
}

/// What a session on `ifname` that stands at `phase` does with a reply.
///
/// A reply that is no answer to the request that was out counts as a refusal.
pub open spec fn next(ifname: Seq<char>, phase: Phase, reply: Reply) -> StepView {
    match phase {
        Phase::AwaitPermForChange => match reply {
            Reply::PermAddress(answer) => StepView::Issue(
                Request::GetFlags,
                ifname,
                Phase::AwaitFlagsDown(Mac(answer.data)),
            ),
            _ => StepView::Fail(ErrorView::CantGetPermMacAddr(ifname)),
        },
        Phase::AwaitFlagsDown(mac) => match reply {
            Reply::Flags(flags) => StepView::Issue(
                Request::SetFlags(lowered(flags)),
                ifname,
                Phase::AwaitDown(mac),
            ),
            _ => StepView::Fail(ErrorView::CantGetIfFlag(ifname)),
        },
        Phase::AwaitDown(mac) => match reply {
            Reply::Accepted => StepView::Issue(
                Request::SetMac(hwaddr_of(mac)),
                ifname,
                Phase::AwaitWrite(mac),
            ),
            _ => StepView::Fail(ErrorView::CantSetIfFlag(ifname)),
        },
        Phase::AwaitWrite(mac) => StepView::Issue(
            Request::GetFlags,
            ifname,
            Phase::AwaitFlagsUp(mac, reply is Accepted),
        ),
        Phase::AwaitFlagsUp(mac, written) => match reply {
            Reply::Flags(flags) => StepView::Issue(
                Request::SetFlags(raised(flags)),
                ifname,
                Phase::AwaitUp(mac, written),
            ),
            _ => StepView::Fail(ErrorView::CantGetIfFlag(ifname)),
        },
        Phase::AwaitUp(mac, written) => match reply {
            Reply::Accepted => if written {
                StepView::Print(address_line(mac))
            } else {
                StepView::Fail(ErrorView::CantSetMacAddr(ifname))
            },
            _ => StepView::Fail(ErrorView::CantSetIfFlag(ifname)),
        },
        Phase::AwaitMac => match reply {
            Reply::Address(payload) => StepView::Print(address_line(mac_of(payload))),
            _ => StepView::Fail(ErrorView::CantGetMacAddr(ifname)),
        },
        Phase::AwaitPerm => match reply {
            Reply::PermAddress(answer) => StepView::Print(address_line(Mac(answer.data))),
            _ => StepView::Fail(ErrorView::CantGetPermMacAddr(ifname)),
        },
        Phase::AwaitLength(single_line) => match reply {
            Reply::Length(length) => StepView::Issue(
                Request::ReadInterfaces(length),
                ifname,
                Phase::AwaitRecords(single_line),
            ),
            _ => StepView::Fail(ErrorView::CantGetInterfaces),
        },
        Phase::AwaitRecords(single_line) => match reply {
            Reply::Records(buffer) => StepView::Print(listing(names_of(buffer@), single_line)),
            _ => StepView::Fail(ErrorView::CantGetInterfaces),
        },
    }
}

/// Whether a step opens the change of an interface's address to `mac`: it
/// asks for the interface's flags, to lower it.
pub open spec fn opens_change(step: Step, ifname: Seq<char>, mac: Mac) -> bool {
    step@ == StepView::Issue(Request::GetFlags, ifname, Phase::AwaitFlagsDown(mac))
}

/// Whether a step asks the driver of `ifname` for its permanent address and
/// leaves the session at `phase`.
pub open spec fn asks_perm_addr(step: Step, ifname: Seq<char>, phase: Phase) -> bool {
    step matches Step::Issue(Request::GetPermMac(query), session) && is_perm_addr_query(query)
        && session.ifname@ == ifname && session.phase == phase
}

/// The flag word to write, given the word that was read: the bits of `clr`
/// cleared, then the bits of `set` set. A mask that does not fit the flag
/// word is refused, `set` before `clr`.
pub fn set_flags(current: i16, set: i32, clr: i32) -> (r: Result<i16, Error>)
    ensures
        match r {
            Ok(word) => fits_flag_word(set) && fits_flag_word(clr) && word == updated_flags(
                current,
                set as i16,
                clr as i16,
            ),
            Err(error) => error@ == ErrorView::CantGetFlagFromValue(
                if fits_flag_word(set) {
                    clr
                } else {
                    set
                },
            ) && !(fits_flag_word(set) && fits_flag_word(clr)),
        },
{
    if set < -0x8000 || set > 0x7fff {
        return Err(Error::CantGetFlagFromValue(set));
    }
    if clr < -0x8000 || clr > 0x7fff {
        return Err(Error::CantGetFlagFromValue(clr));
    }
    let set_word = set as i16;
    let clr_word = clr as i16;
    Ok((current & !clr_word) | set_word)
}

/// The control socket, given what opening it returned: a descriptor below
/// zero says that the kernel refused.
pub fn get_socket(descriptor: i32) -> (r: Result<i32, Error>)
    ensures
        match r {
            Ok(socket) => descriptor >= 0 && socket == descriptor,
            Err(error) => descriptor < 0 && error@ == ErrorView::CantGetSocket,
        },
{
    if descriptor < 0 {
        return Err(Error::CantGetSocket);
    }
    Ok(descriptor)
}

impl Reply {
    /// The reply that a request's return code makes of its answer: the
    /// answer, or a refusal where the code is below zero.
    pub fn from_return(code: i32, answer: Reply) -> (reply: Reply)
        ensures
            reply == if code < 0 {
                Reply::Refused
            } else {
                answer
            },
    {
        if code < 0 {
            Reply::Refused
        } else {
            answer
        }
    }
}

/// The line that prints an address.
fn print_address(mac: Mac) -> (step: Step)
    ensures
        step@ == StepView::Print(address_line(mac)),
{
    let mut text = mac.format();
    proof {
        reveal_strlit("\n");
    }
    text.append("\n");
    assert(text@ =~= address_line(mac));
    Step::Print(text)
}

/// The request for the flag word that follows from the word that was read.
fn write_flags(current: i16, set: i32, clr: i32, session: Session) -> (step: Step)
    requires
        fits_flag_word(set),
        fits_flag_word(clr),
    ensures
        step@ == StepView::Issue(
            Request::SetFlags(updated_flags(current, set as i16, clr as i16)),
            session.ifname@,
            session.phase,
        ),
{
    match set_flags(current, set, clr) {
        Ok(word) => Step::Issue(Request::SetFlags(word), session),
        Err(error) => Step::Fail(error),
    }
}

impl Session {
    /// Opens the change of the address of `ifname` to `mac`.
    pub fn begin_change(ifname: String, mac: Mac) -> (step: Step)
        ensures
            opens_change(step, ifname@, mac),
    {
        Step::Issue(Request::GetFlags, Session { ifname, phase: Phase::AwaitFlagsDown(mac) })
    }

    /// The first step of a command.
    ///
    /// To set an address, its text is parsed first, and a text that is
    /// refused ends the command before any request. A random address is
    /// drawn here, so of it only this is known: it is a unicast address.
    pub fn start(args: &Args) -> (step: Step)
        ensures
            match args.command {
                Command::Reset { ifname } => asks_perm_addr(
                    step,
                    ifname@,
                    Phase::AwaitPermForChange,
                ),
                Command::SetAddr { ifname, addr } => match parse_spec(addr@) {
                    Ok(octets) => exists|mac: Mac|
                        opens_change(step, ifname@, mac) && mac@ == octets && mac.padding_clear(),
                    Err(invalid) => step@ == StepView::Fail(ErrorView::Mac(invalid)),
                },
                Command::Random { ifname } => exists|mac: Mac|
                    opens_change(step, ifname@, mac) && mac.is_unicast() && mac.padding_clear(),
                Command::Get { ifname } => step@ == StepView::Issue(
                    Request::GetMac,
                    ifname@,
                    Phase::AwaitMac,
                ),
                Command::Perm { ifname } => asks_perm_addr(step, ifname@, Phase::AwaitPerm),
                Command::Inames { single_line } => step@ == StepView::Issue(
                    Request::SizeInterfaces,
                    Seq::<char>::empty(),
                    Phase::AwaitLength(single_line),
                ),
                Command::Completions { shell } => step@ == StepView::Completions(shell),
            },
    {
        match &args.command {
            Command::Reset { ifname } => Step::Issue(
                Request::GetPermMac(perm_addr_query()),
                Session { ifname: ifname.clone(), phase: Phase::AwaitPermForChange },
            ),
            Command::SetAddr { ifname, addr } => match Mac::parse(addr.as_str()) {
                Ok(mac) => Session::begin_change(ifname.clone(), mac),
                Err(invalid) => Step::Fail(Error::Mac(invalid)),
            },
            Command::Random { ifname } => Session::begin_change(ifname.clone(), Mac::rand()),
            Command::Get { ifname } => Step::Issue(
                Request::GetMac,
                Session { ifname: ifname.clone(), phase: Phase::AwaitMac },
            ),
            Command::Perm { ifname } => Step::Issue(
                Request::GetPermMac(perm_addr_query()),
                Session { ifname: ifname.clone(), phase: Phase::AwaitPerm },
            ),
            Command::Inames { single_line } => Step::Issue(
                Request::SizeInterfaces,
                Session { ifname: String::new(), phase: Phase::AwaitLength(*single_line) },
            ),
            Command::Completions { shell } => Step::Completions(*shell),
        }
    }

    /// The step that follows the kernel's reply to the request that was out.
    pub fn step(self, reply: Reply) -> (step: Step)
        ensures
            step@ == next(self.ifname@, self.phase, reply),
    {
        let Session { ifname, phase } = self;
        match phase {
            Phase::AwaitPermForChange => match reply {
                Reply::PermAddress(answer) => Session::begin_change(
                    ifname,
                    decode_perm_addr(answer),
                ),
                _ => Step::Fail(Error::CantGetPermMacAddr(ifname)),
            },
            Phase::AwaitFlagsDown(mac) => match reply {
                Reply::Flags(flags) => write_flags(
                    flags,
                    0,
                    IFF_UP,
                    Session { ifname, phase: Phase::AwaitDown(mac) },
                ),
                _ => Step::Fail(Error::CantGetIfFlag(ifname)),
            },
            Phase::AwaitDown(mac) => match reply {
                Reply::Accepted => Step::Issue(
                    Request::SetMac(encode_hwaddr(mac)),
                    Session { ifname, phase: Phase::AwaitWrite(mac) },
                ),
                _ => Step::Fail(Error::CantSetIfFlag(ifname)),
            },
            Phase::AwaitWrite(mac) => {
                let written = match reply {
                    Reply::Accepted => true,
                    _ => false,
                };
                Step::Issue(
                    Request::GetFlags,
                    Session { ifname, phase: Phase::AwaitFlagsUp(mac, written) },
                )
            },
            Phase::AwaitFlagsUp(mac, written) => match reply {
                Reply::Flags(flags) => write_flags(
                    flags,
                    IFF_UP,
                    0,
                    Session { ifname, phase: Phase::AwaitUp(mac, written) },
                ),
                _ => Step::Fail(Error::CantGetIfFlag(ifname)),
            },
            Phase::AwaitUp(mac, written) => match reply {
                Reply::Accepted => if written {
                    print_address(mac)
                } else {
                    Step::Fail(Error::CantSetMacAddr(ifname))
                },
                _ => Step::Fail(Error::CantSetIfFlag(ifname)),
            },
            Phase::AwaitMac => match reply {
                Reply::Address(payload) => print_address(decode_hwaddr(payload)),
                _ => Step::Fail(Error::CantGetMacAddr(ifname)),
            },
            Phase::AwaitPerm => match reply {
                Reply::PermAddress(answer) => print_address(decode_perm_addr(answer)),
                _ => Step::Fail(Error::CantGetPermMacAddr(ifname)),
            },
            Phase::AwaitLength(single_line) => match reply {
                Reply::Length(length) => Step::Issue(
                    Request::ReadInterfaces(length),
                    Session { ifname, phase: Phase::AwaitRecords(single_line) },
                ),
                _ => Step::Fail(Error::CantGetInterfaces),
            },
            Phase::AwaitRecords(single_line) => match reply {
                Reply::Records(buffer) => Step::Print(get_ifnames(buffer.as_slice(), single_line)),
                _ => Step::Fail(Error::CantGetInterfaces),
            },
        }
    }
}

/// The requests that a session on `ifname` at `phase` hands out when the
/// replies come in this order, and the step that ends it, if the replies
/// reach so far.
pub open spec fn run(ifname: Seq<char>, phase: Phase, replies: Seq<Reply>) -> (
    Seq<Request>,
    Option<StepView>,
)
    decreases replies.len(),
{
    if replies.len() == 0 {
        (Seq::empty(), None)
    } else {
        match next(ifname, phase, replies[0]) {
            StepView::Issue(request, name, onward) => {
                let rest = run(name, onward, replies.drop_first());
                (seq![request] + rest.0, rest.1)
            },
            end => (Seq::empty(), Some(end)),
        }
    }
}

/// Lowering clears the up bit, raising sets it, and neither touches another bit.
pub proof fn lemma_flag_words(flags: i16)
    ensures
        lowered(flags) & 1 == 0,
        raised(flags) & 1 == 1,
        lowered(flags) | 1 == flags | 1,
        raised(flags) & !1i16 == flags & !1i16,
{
    assert(IFF_UP as i16 == 1i16);
    assert(((flags & !1i16) | 0i16) & 1 == 0) by (bit_vector);
    assert(((flags & !0i16) | 1i16) & 1 == 1) by (bit_vector);
    assert(((flags & !1i16) | 0i16) | 1 == flags | 1) by (bit_vector);
    assert(((flags & !0i16) | 1i16) & !1i16 == flags & !1i16) by (bit_vector);
}

/// Whatever the kernel answers to the assignment of the address, the
/// session goes on to ask for the flags, to raise the interface again.
pub proof fn lemma_write_is_followed_by_restore(ifname: Seq<char>, mac: Mac, answer: Reply)
    ensures
        next(ifname, Phase::AwaitWrite(mac), answer) == StepView::Issue(
            Request::GetFlags,
            ifname,
            Phase::AwaitFlagsUp(mac, answer is Accepted),
        ),
{
}

/// A change of address on a kernel that serves the flags: after the flags
/// were read, the requests are, in this order and once each, the write of
/// the lowered flags, the assignment, the read of the flags and the write
/// of the raised flags, whether the assignment was taken or refused. The
/// command prints the address where the assignment was taken, and else
/// fails for the assignment.
pub proof fn lemma_change_restores(
    ifname: Seq<char>,
    mac: Mac,
    read_down: i16,
    answer: Reply,
    read_up: i16,
)
    ensures
        run(
            ifname,
            Phase::AwaitFlagsDown(mac),
            seq![
                Reply::Flags(read_down),
                Reply::Accepted,
                answer,
                Reply::Flags(read_up),
                Reply::Accepted,
            ],
        ) == (
            seq![
                Request::SetFlags(lowered(read_down)),
                Request::SetMac(hwaddr_of(mac)),
                Request::GetFlags,
                Request::SetFlags(raised(read_up)),
            ],
            Some(
                if answer is Accepted {
                    StepView::Print(address_line(mac))
                } else {
                    StepView::Fail(ErrorView::CantSetMacAddr(ifname))
                },
            ),
        ),
{
    let r0 = seq![
        Reply::Flags(read_down),
        Reply::Accepted,
        answer,
        Reply::Flags(read_up),
        Reply::Accepted,
    ];
    let r1 = seq![Reply::Accepted, answer, Reply::Flags(read_up), Reply::Accepted];
    let r2 = seq![answer, Reply::Flags(read_up), Reply::Accepted];
    let r3 = seq![Reply::Flags(read_up), Reply::Accepted];
    let r4 = seq![Reply::Accepted];
    assert(r0.drop_first() =~= r1);
    assert(r1.drop_first() =~= r2);
    assert(r2.drop_first() =~= r3);
    assert(r3.drop_first() =~= r4);
    let written = answer is Accepted;
    let end = run(ifname, Phase::AwaitUp(mac, written), r4);
    assert(end.0 =~= Seq::<Request>::empty());
    let up = run(ifname, Phase::AwaitFlagsUp(mac, written), r3);
    assert(up.0 =~= seq![Request::SetFlags(raised(read_up))]);
    let write = run(ifname, Phase::AwaitWrite(mac), r2);
    assert(write.0 =~= seq![Request::GetFlags, Request::SetFlags(raised(read_up))]);
    let down = run(ifname, Phase::AwaitDown(mac), r1);
    assert(down.0 =~= seq![
        Request::SetMac(hwaddr_of(mac)),
        Request::GetFlags,
        Request::SetFlags(raised(read_up)),
    ]);
    let all = run(ifname, Phase::AwaitFlagsDown(mac), r0);
    assert(all.0 =~= seq![
        Request::SetFlags(lowered(read_down)),
        Request::SetMac(hwaddr_of(mac)),
        Request::GetFlags,
        Request::SetFlags(raised(read_up)),
    ]);
}

/// Where the interface cannot be raised again, that failure is what the
/// command reports, whether the assignment was taken or refused.
pub proof fn lemma_restore_failure_wins(ifname: Seq<char>, mac: Mac, written: bool)
    ensures
        next(ifname, Phase::AwaitFlagsUp(mac, written), Reply::Refused) == StepView::Fail(
            ErrorView::CantGetIfFlag(ifname),
        ),
        next(ifname, Phase::AwaitUp(mac, written), Reply::Refused) == StepView::Fail(
            ErrorView::CantSetIfFlag(ifname),
        ),
{
}

/// Where the interface cannot be lowered, or the permanent address cannot
/// be had, the command ends there: no address is assigned.
pub proof fn lemma_no_assignment_without_lowering(
    ifname: Seq<char>,
    mac: Mac,
    replies: Seq<Reply>,
)
    requires
        replies.len() > 0,
        replies[0] is Refused,
    ensures
        run(ifname, Phase::AwaitPermForChange, replies) == (
            Seq::<Request>::empty(),
            Some(StepView::Fail(ErrorView::CantGetPermMacAddr(ifname))),
        ),
        run(ifname, Phase::AwaitFlagsDown(mac), replies) == (
            Seq::<Request>::empty(),
            Some(StepView::Fail(ErrorView::CantGetIfFlag(ifname))),
        ),
        run(ifname, Phase::AwaitDown(mac), replies) == (
            Seq::<Request>::empty(),
            Some(StepView::Fail(ErrorView::CantSetIfFlag(ifname))),
        ),
{
}

} // verus!
