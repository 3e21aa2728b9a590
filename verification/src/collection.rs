//! The fixed, ordered list of a device's interfaces, and the routing of
//! class requests to the one interface that owns an interface number.
use crate::descriptor::HidProtocol;
use crate::interface::{InterfaceClass, InterfaceState, Reply, Request};
use crate::usb::interface_number_to_u8;
use frunk::{HCons, HNil};
use usb_device::bus::StringIndex;
use usb_device::descriptor::DescriptorWriter;
use usb_device::UsbError;
use vstd::prelude::*;

verus! {

/// The reply of a routed SET_REPORT or acknowledgment, as the list's
/// relation `routes` speaks of it.
pub open spec fn status_reply(r: Option<Result<(), UsbError>>) -> Option<Reply> {
    match r {
        Some(s) => Some(Reply::Status(s)),
        None => None,
    }
}

/// The reply of a routed GET_REPORT with the buffer it left.
pub open spec fn report_reply(buf: Seq<u8>, r: Option<Result<usize, UsbError>>) -> Option<Reply> {
    match r {
        Some(s) => Some(Reply::Report(buf, s)),
        None => None,
    }
}

/// The reply of a routed request that cannot fail: `found` says whether an
/// interface took it.
pub open spec fn done_reply(found: bool) -> Option<Reply> {
    if found {
        Some(Reply::Done)
    } else {
        None
    }
}

/// The interface numbers of a list of interface states, in list order.
pub open spec fn ids_of(states: Seq<InterfaceState>) -> Seq<u8> {
    Seq::new(states.len(), |i: int| states[i].id)
}

/// The report descriptors of a list of interface states, in list order.
pub open spec fn descriptors_of(states: Seq<InterfaceState>) -> Seq<Seq<u8>> {
    Seq::new(states.len(), |i: int| states[i].report_descriptor)
}

/// The first state in `states` with interface number `id`.
pub open spec fn find_state(states: Seq<InterfaceState>, id: u8) -> Option<InterfaceState>
    decreases states.len(),
{
    if states.len() == 0 {
        None
    } else if states[0].id == id {
        Some(states[0])
    } else {
        find_state(states.drop_first(), id)
    }
}

/// The string of the first state in `states` that has one for this index
/// and language.
pub open spec fn first_string(
    states: Seq<InterfaceState>,
    index: StringIndex,
    lang_id: u16,
) -> Option<Seq<char>>
    decreases states.len(),
{
    if states.len() == 0 {
        None
    } else if (states[0].strings)(index, lang_id) is Some {
        (states[0].strings)(index, lang_id)
    } else {
        first_string(states.drop_first(), index, lang_id)
    }
}

/// No interface number occurs twice in `states`.
pub open spec fn distinct_ids(states: Seq<InterfaceState>) -> bool {
    forall|i: int, j: int|
        0 <= i < states.len() && 0 <= j < states.len() && i != j ==> states[i].id != states[j].id
}

/// A list of interfaces: either empty, or a first interface and the list of
/// the others. Its length and the type of each member are fixed where the
/// device is put together.
pub trait InterfaceHList {
    /// The states of the members, in list order.
    spec fn states(&self) -> Seq<InterfaceState>;

    /// `after` holds each member of this list after its reset, in the same
    /// place.
    spec fn reset_to(&self, after: &Self) -> bool;

    /// The members wrote their descriptors in list order, from `before` up to
    /// the first failure, which is `result`, or all of them; `after` is the
    /// writer as the last one that wrote left it.
    spec fn wrote_descriptors(
        &self,
        before: DescriptorWriter,
        after: DescriptorWriter,
        result: Result<(), UsbError>,
    ) -> bool;

    /// The first member with interface number `id` served `request` and gave
    /// `reply`, and every other member of `after` is as it was; where no
    /// member has that number `reply` is `None` and nothing changed.
    spec fn routes(&self, id: u8, request: Request, after: &Self, reply: Option<Reply>) -> bool;

    /// The first member with interface number `id`, as a trait object.
    ///
    /// Verus relates no trait object to the value it was made from, so the
    /// contract says when there is a handle and nothing of the handle's
    /// state. `get_protocol`, `get_idle` and `report_descriptor` read the
    /// same member, and their contracts say which one it is.
    fn get_id(&self, id: u8) -> (r: Option<&dyn InterfaceClass>)
        ensures
            r is Some <==> find_state(self.states(), id) is Some,
    ;

    /// The protocol of the first member with interface number `id`.
    fn get_protocol(&self, id: u8) -> (r: Option<HidProtocol>)
        ensures
            r == match find_state(self.states(), id) {
                Some(s) => Some(s.protocol),
                None => None,
            },
    ;

    /// The idle rate that the first member with interface number `id` holds
    /// for a report id.
    fn get_idle(&self, id: u8, report_id: u8) -> (r: Option<u8>)
        ensures
            r == match find_state(self.states(), id) {
                Some(s) => Some((s.idle)(report_id)),
                None => None,
            },
    ;

    /// The report descriptor of the first member with interface number `id`.
    fn report_descriptor(&self, id: u8) -> (r: Option<&[u8]>)
        ensures
            r is Some <==> find_state(self.states(), id) is Some,
            r is Some ==> r.unwrap()@ == find_state(self.states(), id).unwrap().report_descriptor,
    ;

    /// Resets every member, once, in list order.
    fn reset(&mut self)
        ensures
            old(self).reset_to(final(self)),
            ids_of(final(self).states()) == ids_of(old(self).states()),
            descriptors_of(final(self).states()) == descriptors_of(old(self).states()),
    ;

    /// Writes the descriptors of each member in list order and stops at the
    /// first failure.
    fn write_descriptors(&self, writer: &mut DescriptorWriter) -> (r: Result<(), UsbError>)
        ensures
            self.wrote_descriptors(*old(writer), *final(writer), r),
    ;

    /// The string of the first member, in list order, that has one.
    fn get_string(&self, index: StringIndex, lang_id: u16) -> (r: Option<&str>)
        ensures
            r is Some <==> first_string(self.states(), index, lang_id) is Some,
            r is Some ==> r.unwrap()@ == first_string(self.states(), index, lang_id).unwrap(),
    ;

    /// Hands a report from the host to the interface with number `id`.
    fn set_report(&mut self, id: u8, data: &[u8]) -> (r: Option<Result<(), UsbError>>)
        ensures
            r is Some <==> find_state(old(self).states(), id) is Some,
            old(self).routes(id, Request::SetReport(data@), final(self), status_reply(r)),
            ids_of(final(self).states()) == ids_of(old(self).states()),
            descriptors_of(final(self).states()) == descriptors_of(old(self).states()),
    ;

    /// Lets the interface with number `id` fill `data` with a report.
    fn get_report(&mut self, id: u8, data: &mut [u8]) -> (r: Option<Result<usize, UsbError>>)
        ensures
            r is Some <==> find_state(old(self).states(), id) is Some,
            old(self).routes(
                id,
                Request::GetReport(old(data)@),
                final(self),
                report_reply(final(data)@, r),
            ),
            r is None ==> final(data)@ == old(data)@,
            final(data)@.len() == old(data)@.len(),
            ids_of(final(self).states()) == ids_of(old(self).states()),
            descriptors_of(final(self).states()) == descriptors_of(old(self).states()),
    ;

    /// Tells the interface with number `id` that its report was taken.
    fn get_report_ack(&mut self, id: u8) -> (r: Option<Result<(), UsbError>>)
        ensures
            r is Some <==> find_state(old(self).states(), id) is Some,
            old(self).routes(id, Request::GetReportAck, final(self), status_reply(r)),
            ids_of(final(self).states()) == ids_of(old(self).states()),
            descriptors_of(final(self).states()) == descriptors_of(old(self).states()),
    ;

    /// Stores an idle rate in the interface with number `id`; returns whether
    /// there is one.
    fn set_idle(&mut self, id: u8, report_id: u8, value: u8) -> (found: bool)
        ensures
            found <==> find_state(old(self).states(), id) is Some,
            old(self).routes(id, Request::SetIdle(report_id, value), final(self), done_reply(found)),
            ids_of(final(self).states()) == ids_of(old(self).states()),
            descriptors_of(final(self).states()) == descriptors_of(old(self).states()),
    ;

    /// Selects the protocol of the interface with number `id`; returns
    /// whether there is one.
    fn set_protocol(&mut self, id: u8, protocol: HidProtocol) -> (found: bool)
        ensures
            found <==> find_state(old(self).states(), id) is Some,
            old(self).routes(id, Request::SetProtocol(protocol), final(self), done_reply(found)),
            found ==> find_state(final(self).states(), id) is Some && find_state(
                final(self).states(),
                id,
            ).unwrap().protocol == protocol,
            ids_of(final(self).states()) == ids_of(old(self).states()),
            descriptors_of(final(self).states()) == descriptors_of(old(self).states()),
    ;
}

impl InterfaceHList for HNil {
    open spec fn states(&self) -> Seq<InterfaceState> {
        Seq::empty()
    }

    open spec fn reset_to(&self, after: &Self) -> bool {
        true
    }

    open spec fn wrote_descriptors(
        &self,
        before: DescriptorWriter,
        after: DescriptorWriter,
        result: Result<(), UsbError>,
    ) -> bool {
        after == before && result is Ok
    }

    open spec fn routes(&self, id: u8, request: Request, after: &Self, reply: Option<Reply>) -> bool {
        reply is None
    }

    fn get_id(&self, id: u8) -> (r: Option<&dyn InterfaceClass>) {
        None
    }

    fn get_protocol(&self, id: u8) -> (r: Option<HidProtocol>) {
        None
    }

    fn get_idle(&self, id: u8, report_id: u8) -> (r: Option<u8>) {
        None
    }

    fn report_descriptor(&self, id: u8) -> (r: Option<&[u8]>) {
        None
    }

    fn reset(&mut self) {
    }

    fn write_descriptors(&self, writer: &mut DescriptorWriter) -> (r: Result<(), UsbError>) {
        Ok(())
    }

    fn get_string(&self, index: StringIndex, lang_id: u16) -> (r: Option<&str>) {
        None
    }

    fn set_report(&mut self, id: u8, data: &[u8]) -> (r: Option<Result<(), UsbError>>) {
        None
    }

    fn get_report(&mut self, id: u8, data: &mut [u8]) -> (r: Option<Result<usize, UsbError>>) {
        None
    }

    fn get_report_ack(&mut self, id: u8) -> (r: Option<Result<(), UsbError>>) {
        None
    }

    fn set_idle(&mut self, id: u8, report_id: u8, value: u8) -> (found: bool) {
        false
    }

    fn set_protocol(&mut self, id: u8, protocol: HidProtocol) -> (found: bool) {
        false
    }
}

impl<Head: InterfaceClass, Tail: InterfaceHList> InterfaceHList for HCons<Head, Tail> {
    open spec fn states(&self) -> Seq<InterfaceState> {
        seq![self.head.state()] + self.tail.states()
    }

    open spec fn reset_to(&self, after: &Self) -> bool {
        self.head.reset_to(after.head.state()) && self.tail.reset_to(&after.tail)
    }

    open spec fn wrote_descriptors(
        &self,
        before: DescriptorWriter,
        after: DescriptorWriter,
        result: Result<(), UsbError>,
    ) -> bool {
        exists|mid: DescriptorWriter, first: Result<(), UsbError>|
            {
                &&& #[trigger] self.head.wrote_descriptors(before, mid, first)
                &&& first is Err ==> after == mid && result == first
                &&& first is Ok ==> self.tail.wrote_descriptors(mid, after, result)
            }
    }

    open spec fn routes(&self, id: u8, request: Request, after: &Self, reply: Option<Reply>) -> bool {
        if self.head.state().id == id {
            &&& reply is Some
            &&& self.head.handles(request, after.head.state(), reply.unwrap())
            &&& after.tail == self.tail
        } else {
            &&& after.head == self.head
            &&& self.tail.routes(id, request, &after.tail, reply)
        }
    }

    fn get_id(&self, id: u8) -> (r: Option<&dyn InterfaceClass>) {
        proof {
            lemma_states_cons(self.head.state(), self.tail.states(), id);
        }
        if id == interface_number_to_u8(self.head.id()) {
            Some(&self.head)
        } else {
            self.tail.get_id(id)
        }
    }

    fn get_protocol(&self, id: u8) -> (r: Option<HidProtocol>) {
        proof {
            lemma_states_cons(self.head.state(), self.tail.states(), id);
        }
        if id == interface_number_to_u8(self.head.id()) {
            Some(self.head.get_protocol())
        } else {
            self.tail.get_protocol(id)
        }
    }

    fn get_idle(&self, id: u8, report_id: u8) -> (r: Option<u8>) {
        proof {
            lemma_states_cons(self.head.state(), self.tail.states(), id);
        }
        if id == interface_number_to_u8(self.head.id()) {
            Some(self.head.get_idle(report_id))
        } else {
            self.tail.get_idle(id, report_id)
        }
    }

    fn report_descriptor(&self, id: u8) -> (r: Option<&[u8]>) {
        proof {
            lemma_states_cons(self.head.state(), self.tail.states(), id);
        }
        if id == interface_number_to_u8(self.head.id()) {
            Some(self.head.report_descriptor())
        } else {
            self.tail.report_descriptor(id)
        }
    }

    fn reset(&mut self) {
        self.head.reset();
        self.tail.reset();
        proof {
            lemma_states_cons(old(self).head.state(), old(self).tail.states(), 0);
            lemma_states_cons(self.head.state(), self.tail.states(), 0);
        }
    }

    fn write_descriptors(&self, writer: &mut DescriptorWriter) -> (r: Result<(), UsbError>) {
        let first = self.head.write_descriptors(writer);
        match first {
            Ok(()) => self.tail.write_descriptors(writer),
            Err(e) => Err(e),
        }
    }

    fn get_string(&self, index: StringIndex, lang_id: u16) -> (r: Option<&str>) {
        proof {
            lemma_first_string_cons(self.head.state(), self.tail.states(), index, lang_id);
        }
        let s = self.head.get_string(index, lang_id);
        if s.is_some() {
            s
        } else {
            self.tail.get_string(index, lang_id)
        }
    }

    fn set_report(&mut self, id: u8, data: &[u8]) -> (r: Option<Result<(), UsbError>>) {
        proof {
            lemma_states_cons(self.head.state(), self.tail.states(), id);
        }
        let r = if id == interface_number_to_u8(self.head.id()) {
            Some(self.head.set_report(data))
        } else {
            self.tail.set_report(id, data)
        };
        proof {
            lemma_states_cons(self.head.state(), self.tail.states(), id);
        }
        r
    }

    fn get_report(&mut self, id: u8, data: &mut [u8]) -> (r: Option<Result<usize, UsbError>>) {
        proof {
            lemma_states_cons(self.head.state(), self.tail.states(), id);
        }
        let r = if id == interface_number_to_u8(self.head.id()) {
            Some(self.head.get_report(data))
        } else {
            self.tail.get_report(id, data)
        };
        proof {
            lemma_states_cons(self.head.state(), self.tail.states(), id);
        }
        r
    }

    fn get_report_ack(&mut self, id: u8) -> (r: Option<Result<(), UsbError>>) {
        proof {
            lemma_states_cons(self.head.state(), self.tail.states(), id);
        }
        let r = if id == interface_number_to_u8(self.head.id()) {
            Some(self.head.get_report_ack())
        } else {
            self.tail.get_report_ack(id)
        };
        proof {
            lemma_states_cons(self.head.state(), self.tail.states(), id);
        }
        r
    }

    fn set_idle(&mut self, id: u8, report_id: u8, value: u8) -> (found: bool) {
        proof {
            lemma_states_cons(self.head.state(), self.tail.states(), id);
        }
        let found = if id == interface_number_to_u8(self.head.id()) {
            self.head.set_idle(report_id, value);
            true
        } else {
            self.tail.set_idle(id, report_id, value)
        };
        proof {
            lemma_states_cons(self.head.state(), self.tail.states(), id);
        }
        found
    }

    fn set_protocol(&mut self, id: u8, protocol: HidProtocol) -> (found: bool) {
        proof {
            lemma_states_cons(self.head.state(), self.tail.states(), id);
        }
        let found = if id == interface_number_to_u8(self.head.id()) {
            self.head.set_protocol(protocol);
            true
        } else {
            self.tail.set_protocol(id, protocol)
        };
        proof {
            lemma_states_cons(self.head.state(), self.tail.states(), id);
        }
        found
    }
}

/// A list that starts with `head` is searched by looking at `head` and then
/// at the rest, and its interface numbers are that of `head` and then those
/// of the rest.
pub proof fn lemma_states_cons(head: InterfaceState, rest: Seq<InterfaceState>, id: u8)
    ensures
        find_state(seq![head] + rest, id) == if head.id == id {
            Some(head)
        } else {
            find_state(rest, id)
        },
        ids_of(seq![head] + rest) == seq![head.id] + ids_of(rest),
        descriptors_of(seq![head] + rest) == seq![head.report_descriptor] + descriptors_of(rest),
{
    let all = seq![head] + rest;
    assert(all[0] == head);
    assert(all.drop_first() =~= rest);
    assert(ids_of(all) =~= seq![head.id] + ids_of(rest));
    assert(descriptors_of(all) =~= seq![head.report_descriptor] + descriptors_of(rest));
}

/// Where the first member of a list writes its descriptors and the second
/// fails, the list fails with the second member's error and leaves the writer
/// as the second member left it, whatever the members after it are.
pub proof fn lemma_write_stops_at_second<A: InterfaceClass, B: InterfaceClass, T: InterfaceHList>(
    list: HCons<A, HCons<B, T>>,
    before: DescriptorWriter,
    mid: DescriptorWriter,
    after: DescriptorWriter,
    error: UsbError,
)
    requires
        list.head.wrote_descriptors(before, mid, Ok(())),
        list.tail.head.wrote_descriptors(mid, after, Err(error)),
    ensures
        list.wrote_descriptors(before, after, Err(error)),
{
    let failed: Result<(), UsbError> = Err(error);
    let passed: Result<(), UsbError> = Ok(());
    assert(list.tail.wrote_descriptors(mid, after, failed)) by {
        assert(list.tail.head.wrote_descriptors(mid, after, failed));
    }
    assert(list.head.wrote_descriptors(before, mid, passed));
}

/// Where the first member of a list can only write its descriptors and the
/// second can only fail, every outcome of the list is a failure: the error
/// is the one the second member gave, and the writer is left as the second
/// member left it after the first had written. No member after the second
/// has a part in it.
pub proof fn lemma_write_fails_with_second<A: InterfaceClass, B: InterfaceClass, T: InterfaceHList>(
    list: HCons<A, HCons<B, T>>,
    before: DescriptorWriter,
    after: DescriptorWriter,
    result: Result<(), UsbError>,
)
    requires
        list.wrote_descriptors(before, after, result),
        forall|w1: DescriptorWriter, w2: DescriptorWriter, r: Result<(), UsbError>|
            #[trigger] list.head.wrote_descriptors(w1, w2, r) ==> r is Ok,
        forall|w1: DescriptorWriter, w2: DescriptorWriter, r: Result<(), UsbError>|
            #[trigger] list.tail.head.wrote_descriptors(w1, w2, r) ==> r is Err,
    ensures
        result is Err,
        exists|mid: DescriptorWriter|
            {
                &&& #[trigger] list.head.wrote_descriptors(before, mid, Ok(()))
                &&& list.tail.head.wrote_descriptors(mid, after, result)
            },
{
    let (mid, first) = choose|mid: DescriptorWriter, first: Result<(), UsbError>|
        {
            &&& #[trigger] list.head.wrote_descriptors(before, mid, first)
            &&& first is Err ==> after == mid && result == first
            &&& first is Ok ==> list.tail.wrote_descriptors(mid, after, result)
        };
    assert(first is Ok);
    assert(first == Ok::<(), UsbError>(())) by {
        let unit = first->Ok_0;
        assert(unit == ());
        assert(first == Ok::<(), UsbError>(unit));
    }
    let (mid2, second) = choose|mid2: DescriptorWriter, second: Result<(), UsbError>|
        {
            &&& #[trigger] list.tail.head.wrote_descriptors(mid, mid2, second)
            &&& second is Err ==> after == mid2 && result == second
            &&& second is Ok ==> list.tail.tail.wrote_descriptors(mid2, after, result)
        };
    assert(second is Err);
    assert(list.head.wrote_descriptors(before, mid, Ok(())));
    assert(list.tail.head.wrote_descriptors(mid, after, result));
}

/// Where the first member of a list can only fail, every outcome of the list
/// is that member's failure, and the writer is left as that member left it.
pub proof fn lemma_write_fails_with_first<A: InterfaceClass, T: InterfaceHList>(
    list: HCons<A, T>,
    before: DescriptorWriter,
    after: DescriptorWriter,
    result: Result<(), UsbError>,
)
    requires
        list.wrote_descriptors(before, after, result),
        forall|w1: DescriptorWriter, w2: DescriptorWriter, r: Result<(), UsbError>|
            #[trigger] list.head.wrote_descriptors(w1, w2, r) ==> r is Err,
    ensures
        result is Err,
        list.head.wrote_descriptors(before, after, result),
{
    let (mid, first) = choose|mid: DescriptorWriter, first: Result<(), UsbError>|
        {
            &&& #[trigger] list.head.wrote_descriptors(before, mid, first)
            &&& first is Err ==> after == mid && result == first
            &&& first is Ok ==> list.tail.wrote_descriptors(mid, after, result)
        };
    assert(first is Err);
}

/// A list that starts with `head` answers with the string of `head` where it
/// has one, and else as the rest does.
pub proof fn lemma_first_string_cons(
    head: InterfaceState,
    rest: Seq<InterfaceState>,
    index: StringIndex,
    lang_id: u16,
)
    ensures
        first_string(seq![head] + rest, index, lang_id) == if (head.strings)(index, lang_id)
            is Some {
            (head.strings)(index, lang_id)
        } else {
            first_string(rest, index, lang_id)
        },
{
    let all = seq![head] + rest;
    assert(all[0] == head);
    assert(all.drop_first() =~= rest);
}

/// The string of a list is that of the first member, in list order, that
/// has one: members before it that have none are passed over, and members
/// after it are not asked.
pub proof fn lemma_first_string_is_first_defined(
    states: Seq<InterfaceState>,
    index: StringIndex,
    lang_id: u16,
    i: int,
)
    requires
        0 <= i < states.len(),
        forall|j: int| 0 <= j < i ==> (#[trigger] states[j].strings)(index, lang_id) is None,
        (states[i].strings)(index, lang_id) is Some,
    ensures
        first_string(states, index, lang_id) == (states[i].strings)(index, lang_id),
    decreases states.len(),
{
    if i != 0 {
        let rest = states.drop_first();
        assert((states[0].strings)(index, lang_id) is None);
        assert(rest[i - 1] == states[i]);
        assert forall|j: int| 0 <= j < i - 1 implies (#[trigger] rest[j].strings)(
            index,
            lang_id,
        ) is None by {
            assert(rest[j] == states[j + 1]);
        }
        lemma_first_string_is_first_defined(rest, index, lang_id, i - 1);
    }
}

/// A list in which no member has a string for an index and a language has
/// none; so has the empty list.
pub proof fn lemma_first_string_none(states: Seq<InterfaceState>, index: StringIndex, lang_id: u16)
    requires
        forall|j: int| 0 <= j < states.len() ==> (#[trigger] states[j].strings)(index, lang_id)
            is None,
    ensures
        first_string(states, index, lang_id) is None,
    decreases states.len(),
{
    if states.len() != 0 {
        let rest = states.drop_first();
        assert((states[0].strings)(index, lang_id) is None);
        assert forall|j: int| 0 <= j < rest.len() implies (#[trigger] rest[j].strings)(
            index,
            lang_id,
        ) is None by {
            assert(rest[j] == states[j + 1]);
        }
        lemma_first_string_none(rest, index, lang_id);
    }
}

/// A reset of a list resets its first member and the rest of the list, and a
/// reset of the empty list changes nothing.
pub proof fn lemma_reset_reaches_every_member<A: InterfaceClass, T: InterfaceHList>(
    before: HCons<A, T>,
    after: HCons<A, T>,
)
    ensures
        before.reset_to(&after) <==> before.head.reset_to(after.head.state())
            && before.tail.reset_to(&after.tail),
        HNil.reset_to(&HNil),
{
}

/// An interface number is found exactly if some member has it, and what is
/// found is a member with that number.
pub proof fn lemma_find_state_some(states: Seq<InterfaceState>, id: u8)
    ensures
        find_state(states, id) is Some <==> ids_of(states).contains(id),
        find_state(states, id) is Some ==> find_state(states, id).unwrap().id == id
            && states.contains(find_state(states, id).unwrap()),
    decreases states.len(),
{
    let ids = ids_of(states);
    if states.len() == 0 {
    } else if states[0].id == id {
        assert(ids[0] == id);
        assert(states[0] == find_state(states, id).unwrap());
    } else {
        let rest = states.drop_first();
        lemma_find_state_some(rest, id);
        if find_state(rest, id) is Some {
            let k = choose|k: int| 0 <= k < rest.len() && rest[k] == find_state(rest, id).unwrap();
            assert(states[k + 1] == rest[k]);
            let m = choose|m: int| 0 <= m < ids_of(rest).len() && ids_of(rest)[m] == id;
            assert(ids[m + 1] == id);
        }
        if ids.contains(id) {
            let m = choose|m: int| 0 <= m < ids.len() && ids[m] == id;
            assert(ids_of(rest)[m - 1] == id);
        }
    }
}

/// Where no interface number occurs twice, every member is found under its
/// own number.
pub proof fn lemma_find_state_distinct(states: Seq<InterfaceState>, i: int)
    requires
        distinct_ids(states),
        0 <= i < states.len(),
    ensures
        find_state(states, states[i].id) == Some(states[i]),
    decreases states.len(),
{
    if i != 0 {
        let rest = states.drop_first();
        assert(states[0].id != states[i].id);
        assert(rest[i - 1] == states[i]);
        assert(distinct_ids(rest)) by {
            assert forall|a: int, b: int|
                0 <= a < rest.len() && 0 <= b < rest.len() && a != b implies rest[a].id
                != rest[b].id by {
                assert(rest[a] == states[a + 1]);
                assert(rest[b] == states[b + 1]);
            }
        }
        lemma_find_state_distinct(rest, i - 1);
    }
}

/// A number that no member has is not found.
pub proof fn lemma_find_state_none(states: Seq<InterfaceState>, id: u8)
    requires
        forall|i: int| 0 <= i < states.len() ==> states[i].id != id,
    ensures
        find_state(states, id) is None,
{
    lemma_find_state_some(states, id);
    if ids_of(states).contains(id) {
        let m = choose|m: int| 0 <= m < ids_of(states).len() && ids_of(states)[m] == id;
        assert(states[m].id == id);
    }
}

} // verus!
