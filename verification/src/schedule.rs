use vstd::prelude::*;
use crate::frame::{biw_count, msg_total, Frame};
use crate::message::{is_encodable, message_codeword_count, Message};

verus! {

/// The messages meant for a frame number, in their order.
pub open spec fn messages_for_frame(msgs: Seq<Message>, frame_number: u32) -> Seq<Message>
    decreases msgs.len(),
{
    if msgs.len() == 0 {
        Seq::empty()
    } else {
        let init = messages_for_frame(msgs.drop_last(), frame_number);
        if msgs.last().frame == frame_number {
            init.push(msgs.last())
        } else {
            init
        }
    }
}

/// The messages meant for a frame number can all be encoded and fit in it
/// together.
pub open spec fn frame_fits(msgs: Seq<Message>, frame_number: u32) -> bool {
    &&& forall|i: int|
        0 <= i < msgs.len() && #[trigger] msgs[i].frame == frame_number ==> is_encodable(&msgs[i])
    &&& biw_count(frame_number == 0) + msg_total(messages_for_frame(msgs, frame_number)) < 88
}

/// Adding messages never lowers the count of the words they take.
pub proof fn lemma_msg_total_prefix(msgs: Seq<Message>, frame_number: u32, j: int)
    requires
        0 <= j <= msgs.len(),
    ensures
        msg_total(messages_for_frame(msgs.take(j), frame_number)) <= msg_total(
            messages_for_frame(msgs, frame_number),
        ),
    decreases msgs.len(),
{
    if j < msgs.len() {
        let init = msgs.drop_last();
        assert(msgs.take(j) =~= init.take(j));
        lemma_msg_total_prefix(init, frame_number, j);
        let sel = messages_for_frame(init, frame_number);
        if msgs.last().frame == frame_number {
            assert(sel.push(msgs.last()).drop_last() =~= sel);
        }
    } else {
        assert(msgs.take(j) =~= msgs);
    }
}

proof fn lemma_select_step(msgs: Seq<Message>, frame_number: u32, i: int)
    requires
        0 <= i < msgs.len(),
    ensures
        messages_for_frame(msgs.take(i + 1), frame_number) == if msgs[i].frame == frame_number {
            messages_for_frame(msgs.take(i), frame_number).push(msgs[i])
        } else {
            messages_for_frame(msgs.take(i), frame_number)
        },
{
    assert(msgs.take(i + 1).drop_last() =~= msgs.take(i));
}

/// Some message meant for the frame number cannot be encoded, and the
/// messages for that frame number before it can all be encoded and fit.
pub open spec fn unencodable_first(msgs: Seq<Message>, frame_number: u32) -> bool {
    exists|i: int|
        0 <= i < msgs.len() && #[trigger] msgs[i].frame == frame_number && !is_encodable(&msgs[i])
            && frame_fits(msgs.take(i), frame_number)
}

/// Why the messages for a frame number cannot go in a frame: the first
/// problem met in their order.
pub open spec fn frame_error(msgs: Seq<Message>, frame_number: u32) -> &'static str {
    if unencodable_first(msgs, frame_number) {
        "message cannot be encoded in a frame"
    } else {
        "could not add message to frame"
    }
}

/// The messages for a frame number fit together, then they fit any prefix.
proof fn lemma_frame_fits_prefix(msgs: Seq<Message>, frame_number: u32, j: int)
    requires
        0 <= j <= msgs.len(),
        frame_fits(msgs, frame_number),
    ensures
        frame_fits(msgs.take(j), frame_number),
{
    lemma_msg_total_prefix(msgs, frame_number, j);
    assert forall|i: int|
        0 <= i < msgs.take(j).len() && #[trigger] msgs.take(j)[i].frame == frame_number implies is_encodable(
        &msgs.take(j)[i],
    ) by {
        assert(msgs.take(j)[i] == msgs[i]);
    }
}

/// A frame with every message meant for its frame number, in their order.
/// Fails when one of them cannot be encoded or they do not fit together.
pub fn build_frame(cycle_number: u32, frame_number: u32, msgs: &Vec<Message>) -> (r: Result<
    Frame,
    &'static str,
>)
    requires
        cycle_number <= 14,
        frame_number <= 127,
    ensures
        r is Ok <==> frame_fits(msgs@, frame_number),
        r matches Ok(f) ==> f.wf() && f.cycle_and_frame() == (cycle_number, frame_number)
            && f.messages() == messages_for_frame(msgs@, frame_number),
        !frame_fits(msgs@, frame_number) ==> r == Err::<Frame, &'static str>(
            frame_error(msgs@, frame_number),
        ),
{
    let mut frame = Frame::new(cycle_number, frame_number).unwrap();
    let ghost base = biw_count(frame_number == 0);
    let mut i: usize = 0;
    while i < msgs.len()
        invariant
            i <= msgs@.len(),
            frame.wf(),
            frame.cycle_and_frame() == (cycle_number, frame_number),
            frame.messages() == messages_for_frame(msgs@.take(i as int), frame_number),
            base == biw_count(frame_number == 0),
            forall|j: int|
                0 <= j < i && #[trigger] msgs@[j].frame == frame_number ==> is_encodable(&msgs@[j]),
        decreases msgs@.len() - i,
    {
        proof {
            lemma_select_step(msgs@, frame_number, i as int);
            frame.lemma_wf_counts();
            assert forall|j: int|
                0 <= j < msgs@.take(i as int).len() && #[trigger] msgs@.take(i as int)[j].frame
                    == frame_number implies is_encodable(&msgs@.take(i as int)[j]) by {
                assert(msgs@.take(i as int)[j] == msgs@[j]);
            }
            assert(frame_fits(msgs@.take(i as int), frame_number));
        }
        if msgs[i].frame == frame_number {
            if !msgs[i].can_be_encoded() {
                proof {
                    assert(unencodable_first(msgs@, frame_number));
                }
                return Err("message cannot be encoded in a frame");
            }
            let added = frame.add_message(msgs[i].clone());
            if added.is_err() {
                proof {
                    lemma_msg_total_prefix(msgs@, frame_number, i + 1);
                    let sel = messages_for_frame(msgs@.take(i as int), frame_number);
                    assert(sel.push(msgs@[i as int]).drop_last() =~= sel);
                    assert(!frame_fits(msgs@.take(i + 1), frame_number));
                    if unencodable_first(msgs@, frame_number) {
                        let k = choose|k: int|
                            0 <= k < msgs@.len() && #[trigger] msgs@[k].frame == frame_number
                                && !is_encodable(&msgs@[k]) && frame_fits(msgs@.take(k), frame_number);
                        if k <= i {
                            assert(is_encodable(&msgs@[k]));
                        } else {
                            lemma_frame_fits_prefix(msgs@.take(k), frame_number, i + 1);
                            assert(msgs@.take(k).take(i + 1) =~= msgs@.take(i + 1));
                        }
                    }
                }
                return Err("could not add message to frame");
            }
        }
        i += 1;
    }
    proof {
        assert(msgs@.take(msgs@.len() as int) =~= msgs@);
        frame.lemma_wf_counts();
    }
    Ok(frame)
}

/// Cycles in an hour.
pub const CYCLES_PER_HOUR: u32 = 15;

/// Frames in a cycle.
pub const FRAMES_PER_CYCLE: u32 = 128;

/// Every frame number of a cycle can carry its messages.
pub open spec fn hour_fits(msgs: Seq<Message>) -> bool {
    forall|f: u32| f < 128 ==> #[trigger] frame_fits(msgs, f)
}

/// A full hour of frames: 15 cycles of 128 frames, each frame with the
/// messages meant for its frame number. Fails when a frame number cannot
/// carry its messages.
pub fn generate_hour(msgs: &Vec<Message>) -> (r: Result<Vec<Frame>, &'static str>)
    ensures
        r is Ok <==> hour_fits(msgs@),
        r matches Ok(frames) ==> {
            &&& frames@.len() == 15 * 128
            &&& forall|k: int|
                0 <= k < frames@.len() ==> {
                    &&& (#[trigger] frames@[k]).wf()
                    &&& frames@[k].cycle_and_frame() == ((k / 128) as u32, (k % 128) as u32)
                    &&& frames@[k].messages() == messages_for_frame(msgs@, (k % 128) as u32)
                }
        },
        r matches Err(e) ==> exists|f: u32|
            f < 128 && !#[trigger] frame_fits(msgs@, f) && (forall|g: u32|
                g < f ==> #[trigger] frame_fits(msgs@, g)) && e == frame_error(msgs@, f),
{
    let mut frames: Vec<Frame> = Vec::new();
    let mut cycle_nr: u32 = 0;
    while cycle_nr < CYCLES_PER_HOUR
        invariant
            cycle_nr <= 15,
            frames@.len() == cycle_nr * 128,
            cycle_nr > 0 ==> hour_fits(msgs@),
            forall|k: int|
                0 <= k < frames@.len() ==> {
                    &&& (#[trigger] frames@[k]).wf()
                    &&& frames@[k].cycle_and_frame() == ((k / 128) as u32, (k % 128) as u32)
                    &&& frames@[k].messages() == messages_for_frame(msgs@, (k % 128) as u32)
                },
        decreases 15 - cycle_nr,
    {
        let mut frame_nr: u32 = 0;
        while frame_nr < FRAMES_PER_CYCLE
            invariant
                cycle_nr < 15,
                frame_nr <= 128,
                frames@.len() == cycle_nr * 128 + frame_nr,
                forall|f: u32| f < frame_nr ==> #[trigger] frame_fits(msgs@, f),
                cycle_nr > 0 ==> hour_fits(msgs@),
                forall|k: int|
                    0 <= k < frames@.len() ==> {
                        &&& (#[trigger] frames@[k]).wf()
                        &&& frames@[k].cycle_and_frame() == ((k / 128) as u32, (k % 128) as u32)
                        &&& frames@[k].messages() == messages_for_frame(msgs@, (k % 128) as u32)
                    },
            decreases 128 - frame_nr,
        {
            let frame = match build_frame(cycle_nr, frame_nr, msgs) {
                Ok(frame) => frame,
                Err(e) => {
                    proof {
                        assert(!frame_fits(msgs@, frame_nr));
                    }
                    return Err(e);
                },
            };
            let ghost k = frames@.len() as int;
            assert(k / 128 == cycle_nr as int && k % 128 == frame_nr as int) by (nonlinear_arith)
                requires
                    k == cycle_nr * 128 + frame_nr,
                    frame_nr < 128,
            ;
            frames.push(frame);
            frame_nr += 1;
        }
        cycle_nr += 1;
    }
    Ok(frames)
}

/// The message names a frame number up to 127, can be encoded, and fits in
/// a frame on its own.
pub open spec fn single_frame_fits(msg: Message) -> bool {
    &&& msg.frame <= 127
    &&& is_encodable(&msg)
    &&& biw_count(msg.frame == 0) + message_codeword_count(&msg) < 88
}

/// Why a message cannot be sent in a frame of its own: the first check it
/// fails.
pub open spec fn single_frame_error(msg: Message) -> &'static str {
    if msg.frame > 127 {
        "Invalid Frame number"
    } else if !is_encodable(&msg) {
        "message cannot be encoded in a frame"
    } else {
        "could not add message to frame"
    }
}

/// Every message can be sent in a frame of its own.
pub open spec fn single_frames_fit(msgs: Seq<Message>) -> bool {
    forall|i: int| 0 <= i < msgs.len() ==> single_frame_fits(#[trigger] msgs[i])
}

/// One frame of cycle 0 per message, numbered as the message says. Fails
/// with the problem of the first message that cannot be sent that way.
pub fn generate_single_frames(msgs: &Vec<Message>) -> (r: Result<Vec<Frame>, &'static str>)
    ensures
        r is Ok <==> single_frames_fit(msgs@),
        r matches Ok(frames) ==> {
            &&& frames@.len() == msgs@.len()
            &&& forall|i: int|
                0 <= i < frames@.len() ==> {
                    &&& (#[trigger] frames@[i]).wf()
                    &&& frames@[i].cycle_and_frame() == (0u32, msgs@[i].frame)
                    &&& frames@[i].messages() == seq![msgs@[i]]
                }
        },
        r matches Err(e) ==> exists|i: int|
            0 <= i < msgs@.len() && !single_frame_fits(#[trigger] msgs@[i]) && (forall|j: int|
                0 <= j < i ==> single_frame_fits(#[trigger] msgs@[j])) && e == single_frame_error(
                msgs@[i],
            ),
{
    let mut frames: Vec<Frame> = Vec::new();
    let mut i: usize = 0;
    while i < msgs.len()
        invariant
            i <= msgs@.len(),
            frames@.len() == i,
            forall|j: int| 0 <= j < i ==> single_frame_fits(#[trigger] msgs@[j]),
            forall|j: int|
                0 <= j < frames@.len() ==> {
                    &&& (#[trigger] frames@[j]).wf()
                    &&& frames@[j].cycle_and_frame() == (0u32, msgs@[j].frame)
                    &&& frames@[j].messages() == seq![msgs@[j]]
                },
        decreases msgs@.len() - i,
    {
        let msg = &msgs[i];
        if msg.frame > 127 {
            proof {
                assert(!single_frame_fits(msgs@[i as int]));
            }
            return Err("Invalid Frame number");
        }
        if !msg.can_be_encoded() {
            proof {
                assert(!single_frame_fits(msgs@[i as int]));
            }
            return Err("message cannot be encoded in a frame");
        }
        let mut frame = Frame::new(0, msg.frame).unwrap();
        proof {
            frame.lemma_wf_counts();
            assert(msg_total(Seq::<Message>::empty()) == 0);
        }
        let added = frame.add_message(msg.clone());
        if added.is_err() {
            proof {
                assert(!single_frame_fits(msgs@[i as int]));
            }
            return Err("could not add message to frame");
        }
        proof {
            assert(Seq::<Message>::empty().push(*msg) =~= seq![*msg]);
        }
        frames.push(frame);
        i += 1;
    }
    Ok(frames)
}

/// The frame built from a message queue in the continuous mode: the queue
/// is read in order, and each message meant for the frame number that still
/// fits is taken out of the queue into the frame. Returns the messages taken
/// and the messages kept, in their order.
pub open spec fn take_from_queue(queue: Seq<Message>, frame_number: u32, count: nat) -> (Seq<
    Message,
>, Seq<Message>)
    decreases queue.len(),
{
    if queue.len() == 0 {
        (Seq::empty(), Seq::empty())
    } else {
        let m = queue[0];
        let size = message_codeword_count(&m);
        if m.frame == frame_number && count + size < 88 {
            let rest = take_from_queue(queue.skip(1), frame_number, count + size);
            (seq![m] + rest.0, rest.1)
        } else {
            let rest = take_from_queue(queue.skip(1), frame_number, count);
            (rest.0, seq![m] + rest.1)
        }
    }
}

/// The words of a message put in front of others add to theirs.
proof fn lemma_msg_total_prepend(m: Message, t: Seq<Message>)
    ensures
        msg_total(seq![m] + t) == message_codeword_count(&m) + msg_total(t),
    decreases t.len(),
{
    if t.len() == 0 {
        let one = seq![m] + t;
        assert(one.drop_last() =~= Seq::<Message>::empty());
        assert(one.last() == m);
        assert(msg_total(Seq::<Message>::empty()) == 0);
        assert(msg_total(t) == 0);
    } else {
        assert((seq![m] + t).drop_last() =~= seq![m] + t.drop_last());
        lemma_msg_total_prepend(m, t.drop_last());
    }
}

/// The continuous mode loses no message and sends none twice: the messages
/// a frame takes and those the queue keeps are, together, exactly the queued
/// ones. Every message taken is meant for the frame, and a frame that had
/// fewer than 88 words still has fewer than 88 with them.
pub proof fn lemma_take_from_queue_conserves(queue: Seq<Message>, frame_number: u32, count: nat)
    requires
        count < 88,
    ensures
        take_from_queue(queue, frame_number, count).0.to_multiset().add(
            take_from_queue(queue, frame_number, count).1.to_multiset(),
        ) == queue.to_multiset(),
        take_from_queue(queue, frame_number, count).0.len() + take_from_queue(
            queue,
            frame_number,
            count,
        ).1.len() == queue.len(),
        forall|i: int|
            0 <= i < take_from_queue(queue, frame_number, count).0.len() ==> (#[trigger] take_from_queue(
                queue,
                frame_number,
                count,
            ).0[i]).frame == frame_number,
        count + msg_total(take_from_queue(queue, frame_number, count).0) < 88,
    decreases queue.len(),
{
    broadcast use vstd::multiset::group_multiset_axioms;

    if queue.len() == 0 {
        let e = Seq::<Message>::empty();
        assert(queue =~= e);
        assert(take_from_queue(queue, frame_number, count) == (e, e));
        vstd::seq_lib::lemma_multiset_commutative(e, e);
        assert(e + e =~= e);
    } else {
        let m = queue[0];
        let rest = queue.skip(1);
        let size = message_codeword_count(&m);
        assert(queue =~= seq![m] + rest);
        vstd::seq_lib::lemma_multiset_commutative(seq![m], rest);
        if m.frame == frame_number && count + size < 88 {
            let r = take_from_queue(rest, frame_number, count + size);
            lemma_take_from_queue_conserves(rest, frame_number, count + size);
            vstd::seq_lib::lemma_multiset_commutative(seq![m], r.0);
            lemma_msg_total_prepend(m, r.0);
            let taken = seq![m] + r.0;
            assert(take_from_queue(queue, frame_number, count) == (taken, r.1));
            assert forall|i: int| 0 <= i < taken.len() implies (#[trigger] taken[i]).frame
                == frame_number by {
                if i > 0 {
                    assert(taken[i] == r.0[i - 1]);
                }
            }
            assert(taken.to_multiset().add(r.1.to_multiset()) =~= queue.to_multiset());
        } else {
            let r = take_from_queue(rest, frame_number, count);
            lemma_take_from_queue_conserves(rest, frame_number, count);
            vstd::seq_lib::lemma_multiset_commutative(seq![m], r.1);
            let kept = seq![m] + r.1;
            assert(take_from_queue(queue, frame_number, count) == (r.0, kept));
            assert(r.0.to_multiset().add(kept.to_multiset()) =~= queue.to_multiset());
        }
    }
}

/// One step of the continuous mode: the frame for the given cycle and frame
/// number takes, in queue order, every queued message meant for it that
/// still fits; those leave the queue, the others stay in it in their order.
pub fn generate_continuous_frame(queue: &mut Vec<Message>, cycle_number: u32, frame_number: u32) -> (frame: Frame)
    requires
        cycle_number <= 14,
        frame_number <= 127,
        forall|i: int|
            0 <= i < old(queue)@.len() && #[trigger] old(queue)@[i].frame == frame_number
                ==> is_encodable(&old(queue)@[i]),
    ensures
        frame.wf(),
        frame.cycle_and_frame() == (cycle_number, frame_number),
        frame.messages() == take_from_queue(old(queue)@, frame_number, biw_count(frame_number == 0)).0,
        final(queue)@ == take_from_queue(old(queue)@, frame_number, biw_count(frame_number == 0)).1,
{
    let ghost start = queue@;
    let mut frame = Frame::new(cycle_number, frame_number).unwrap();
    let mut kept: Vec<Message> = Vec::new();
    let mut i: usize = 0;
    proof {
        frame.lemma_wf_counts();
        assert(start.skip(0) =~= start);
        assert(frame.messages() + take_from_queue(start, frame_number, frame.codeword_count()).0
            =~= take_from_queue(start, frame_number, frame.codeword_count()).0);
        assert(kept@ + take_from_queue(start, frame_number, frame.codeword_count()).1
            =~= take_from_queue(start, frame_number, frame.codeword_count()).1);
    }
    while i < queue.len()
        invariant
            queue@ == start,
            i <= start.len(),
            frame.wf(),
            frame.cycle_and_frame() == (cycle_number, frame_number),
            forall|j: int|
                0 <= j < start.len() && #[trigger] start[j].frame == frame_number ==> is_encodable(
                    &start[j],
                ),
            take_from_queue(start, frame_number, biw_count(frame_number == 0)).0 == frame.messages()
                + take_from_queue(start.skip(i as int), frame_number, frame.codeword_count()).0,
            take_from_queue(start, frame_number, biw_count(frame_number == 0)).1 == kept@
                + take_from_queue(start.skip(i as int), frame_number, frame.codeword_count()).1,
        decreases start.len() - i,
    {
        let ghost rest = start.skip(i as int);
        let ghost count = frame.codeword_count();
        proof {
            assert(rest[0] == start[i as int]);
            assert(rest.skip(1) =~= start.skip(i + 1));
            frame.lemma_wf_counts();
        }
        let msg = &queue[i];
        let mut taken = false;
        if msg.frame == frame_number {
            let size = msg.get_num_of_message_codewords().unwrap();
            if size < frame.space_left() {
                let added = frame.add_message(msg.clone());
                taken = true;
                proof {
                    let t = take_from_queue(start.skip(i + 1), frame_number, frame.codeword_count());
                    assert(take_from_queue(rest, frame_number, count).0 == seq![*msg] + t.0);
                    assert(frame.messages() + t.0 =~= frame.messages().drop_last() + (seq![*msg]
                        + t.0));
                }
            }
        }
        if !taken {
            kept.push(msg.clone());
            proof {
                let t = take_from_queue(start.skip(i + 1), frame_number, count);
                assert(take_from_queue(rest, frame_number, count).1 == seq![*msg] + t.1);
                assert(kept@ + t.1 =~= kept@.drop_last() + (seq![*msg] + t.1));
            }
        }
        i += 1;
    }
    proof {
        assert(start.skip(start.len() as int) =~= Seq::<Message>::empty());
        assert(frame.messages() + Seq::<Message>::empty() =~= frame.messages());
        assert(kept@ + Seq::<Message>::empty() =~= kept@);
    }
    *queue = kept;
    frame
}

/// How the encoder runs.
pub enum OperationMode {
    /// One frame for each message.
    Single,
    /// A full hour of frames.
    Hour,
    /// Frames without end, one every 1.875 seconds.
    Continuous,
}

/// The mode chosen by the command-line flags: an hour if asked for, else
/// single frames, else continuous operation.
pub fn select_operation_mode(hour: bool, single: bool, continuous: bool) -> (r: Result<
    OperationMode,
    &'static str,
>)
    ensures
        hour ==> r matches Ok(OperationMode::Hour),
        !hour && single ==> r matches Ok(OperationMode::Single),
        !hour && !single && continuous ==> r matches Ok(OperationMode::Continuous),
        !hour && !single && !continuous ==> r == Err::<OperationMode, &'static str>(
            "No operation mode given.",
        ),
{
    if hour {
        Ok(OperationMode::Hour)
    } else if single {
        Ok(OperationMode::Single)
    } else if continuous {
        Ok(OperationMode::Continuous)
    } else {
        Err("No operation mode given.")
    }
}

} // verus!
