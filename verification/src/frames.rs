//! Camera frames: put together from USB video payloads, and taken apart into the two eyes.
use vstd::prelude::*;
use vstd::slice::slice_subrange;

verus! {

// The stream is declared as 400x401 YUY2 but it actually carries two 400x400 8-bit images side by
// side (right eye then left eye on each row) plus one row of metadata
pub const EYE_IMAGE_WIDTH: usize = 400;

pub const EYE_IMAGE_HEIGHT: usize = 400;

pub const EYE_IMAGE_BYTES: usize = 160_000;

pub const FRAME_ROW_BYTES: usize = 800;

pub const FRAME_BYTES: usize = 320_800;

/// Toggles with every frame.
pub const UVC_PAYLOAD_HEADER_FID: u8 = 0x01;

/// Marks the last payload of a frame.
pub const UVC_PAYLOAD_HEADER_EOF: u8 = 0x02;

/// Marks a payload that the camera knows to be wrong.
pub const UVC_PAYLOAD_HEADER_ERROR: u8 = 0x40;

/// A payload starts with a header that holds its own length and a byte of flags.
pub open spec fn has_header(payload: Seq<u8>) -> bool {
    payload.len() >= 2 && 2 <= payload[0] <= payload.len()
}

pub open spec fn frame_id(payload: Seq<u8>) -> u8 {
    payload[1] & UVC_PAYLOAD_HEADER_FID
}

pub open spec fn ends_frame(payload: Seq<u8>) -> bool {
    payload[1] & UVC_PAYLOAD_HEADER_EOF != 0
}

pub open spec fn flags_error(payload: Seq<u8>) -> bool {
    payload[1] & UVC_PAYLOAD_HEADER_ERROR != 0
}

/// The image data of a payload.
pub open spec fn body(payload: Seq<u8>) -> Seq<u8> {
    payload.skip(payload[0] as int)
}

/// Reassembles frames from UVC payloads
pub struct FrameAssembler {
    pub frame: Vec<u8>,
    pub corrupted: bool,
    pub last_fid: Option<u8>,
}

/// The view of a `FrameAssembler`.
#[verifier::ext_equal]
pub struct AssemblerView {
    pub frame: Seq<u8>,
    pub corrupted: bool,
    pub last_fid: Option<u8>,
}

impl View for FrameAssembler {
    type V = AssemblerView;

    open spec fn view(&self) -> AssemblerView {
        AssemblerView {
            frame: self.frame@,
            corrupted: self.corrupted,
            last_fid: self.last_fid,
        }
    }
}

impl AssemblerView {
    /// Without the frame collected so far.
    pub open spec fn discarded(self) -> AssemblerView {
        AssemblerView { frame: Seq::empty(), corrupted: false, last_fid: self.last_fid }
    }

    /// The collected data belongs to another frame than the payload: a new frame started without
    /// an end-of-frame marker.
    pub open spec fn interrupted_by(self, payload: Seq<u8>) -> bool {
        &&& self.last_fid matches Some(fid) && fid != frame_id(payload)
        &&& self.frame.len() > 0
    }

    /// With the data of the payload, before its end-of-frame marker is looked at.
    pub open spec fn extended(self, payload: Seq<u8>) -> AssemblerView {
        let start = if self.interrupted_by(payload) {
            self.discarded()
        } else {
            self
        };
        AssemblerView {
            frame: start.frame + body(payload),
            corrupted: start.corrupted || flags_error(payload),
            last_fid: Some(frame_id(payload)),
        }
    }

    /// The collected data is a whole and valid frame.
    pub open spec fn is_whole(self) -> bool {
        !self.corrupted && self.frame.len() == FRAME_BYTES
    }

    /// The payload completes a valid frame.
    pub open spec fn completed_by(self, payload: Seq<u8>) -> bool {
        has_header(payload) && ends_frame(payload) && self.extended(payload).is_whole()
    }

    /// After a payload: one without a header is ignored, and a frame that ends invalid is
    /// discarded.
    pub open spec fn pushed(self, payload: Seq<u8>) -> AssemblerView {
        if !has_header(payload) {
            self
        } else if ends_frame(payload) && !self.extended(payload).is_whole() {
            self.extended(payload).discarded()
        } else {
            self.extended(payload)
        }
    }
}

impl FrameAssembler {
    pub fn new(capacity: usize) -> (assembler: Self)
        ensures
            assembler@ == (AssemblerView {
                frame: Seq::empty(),
                corrupted: false,
                last_fid: None,
            }),
    {
        FrameAssembler { frame: Vec::with_capacity(capacity), corrupted: false, last_fid: None }
    }

    /// Returns true when `frame` holds a complete and valid frame. It must then be cleared with
    /// `take_frame()` before the next payload.
    pub fn push(&mut self, payload: &[u8]) -> (complete: bool)
        ensures
            complete == old(self)@.completed_by(payload@),
            final(self)@ == old(self)@.pushed(payload@),
    {
        if payload.len() < 2 {
            return false;
        }
        let header_len: usize = payload[0] as usize;
        let header_info: u8 = payload[1];
        if header_len < 2 || header_len > payload.len() {
            return false;
        }
        let fid: u8 = header_info & UVC_PAYLOAD_HEADER_FID;
        if let Some(last) = self.last_fid {
            if last != fid && self.frame.len() > 0 {
                // A new frame started without an end-of-frame marker
                self.discard_frame();
            }
        }
        self.last_fid = Some(fid);
        if header_info & UVC_PAYLOAD_HEADER_ERROR != 0 {
            self.corrupted = true;
        }
        self.frame.extend_from_slice(slice_subrange(payload, header_len, payload.len()));
        proof {
            assert(self@ =~= old(self)@.extended(payload@));
        }
        if header_info & UVC_PAYLOAD_HEADER_EOF == 0 {
            return false;
        }
        let complete: bool = !self.corrupted && self.frame.len() == FRAME_BYTES;
        if !complete {
            self.discard_frame();
        }
        complete
    }

    /// Hands out the completed frame, continuing with `replacement` as the buffer
    pub fn take_frame(&mut self, replacement: Vec<u8>) -> (frame: Vec<u8>)
        ensures
            frame@ == old(self)@.frame,
            final(self)@ == (AssemblerView {
                frame: replacement@,
                corrupted: false,
                last_fid: old(self)@.last_fid,
            }),
    {
        self.corrupted = false;
        let mut frame: Vec<u8> = replacement;
        std::mem::swap(&mut self.frame, &mut frame);
        frame
    }

    pub fn discard_frame(&mut self)
        ensures
            final(self)@ == old(self)@.discarded(),
            final(self).frame@.len() == 0,
            !final(self).corrupted,
            final(self).last_fid == old(self).last_fid,
    {
        self.frame.clear();
        self.corrupted = false;
    }
}

/// The assembler after the payloads, in order.
pub open spec fn fed(start: AssemblerView, payloads: Seq<Seq<u8>>) -> AssemblerView
    decreases payloads.len(),
{
    if payloads.len() == 0 {
        start
    } else {
        fed(start, payloads.drop_last()).pushed(payloads.last())
    }
}

/// The image data of the payloads, in order.
pub open spec fn bodies(payloads: Seq<Seq<u8>>) -> Seq<u8>
    decreases payloads.len(),
{
    if payloads.len() == 0 {
        Seq::empty()
    } else {
        bodies(payloads.drop_last()) + body(payloads.last())
    }
}

/// The payloads carry one frame: each has a header with the frame's id, and only the last ends
/// the frame.
pub open spec fn carry_frame(payloads: Seq<Seq<u8>>, fid: u8) -> bool {
    &&& payloads.len() > 0
    &&& forall|i: int|
        0 <= i < payloads.len() ==> {
            &&& #[trigger] has_header(payloads[i])
            &&& frame_id(payloads[i]) == fid
            &&& ends_frame(payloads[i]) == (i == payloads.len() - 1)
        }
}

/// The assembler is ready for a frame: it holds nothing, or data that a frame with this id
/// interrupts.
pub open spec fn ready_for(start: AssemblerView, fid: u8) -> bool {
    if start.frame.len() == 0 {
        !start.corrupted
    } else {
        start.last_fid matches Some(last) && last != fid
    }
}

/// A frame cut into payloads comes out whole: if no payload flags an error and the data has the
/// size of a frame, the last payload completes it, no payload before does, and the assembler
/// holds the data in order.
///
/// This holds also where the assembler still has data of a frame whose end was lost.
pub proof fn law_frame_is_reassembled(start: AssemblerView, payloads: Seq<Seq<u8>>, fid: u8)
    requires
        ready_for(start, fid),
        carry_frame(payloads, fid),
        forall|i: int| 0 <= i < payloads.len() ==> !flags_error(#[trigger] payloads[i]),
        bodies(payloads).len() == FRAME_BYTES,
    ensures
        fed(start, payloads.drop_last()).completed_by(payloads.last()),
        forall|m: int|
            0 <= m < payloads.len() - 1 ==> !fed(start, #[trigger] payloads.take(m)).completed_by(
                payloads[m],
            ),
        fed(start, payloads).frame == bodies(payloads),
{
    let n = payloads.len() as int;
    assert(has_header(payloads[n - 1]));
    lemma_feed(start, payloads, fid);
    assert forall|m: int| 0 <= m < n - 1 implies !fed(
        start,
        #[trigger] payloads.take(m),
    ).completed_by(payloads[m]) by {
        assert(has_header(payloads[m]));
    }
}

proof fn lemma_feed(start: AssemblerView, payloads: Seq<Seq<u8>>, fid: u8)
    requires
        ready_for(start, fid),
        payloads.len() > 0,
        forall|i: int|
            0 <= i < payloads.len() ==> {
                &&& #[trigger] has_header(payloads[i])
                &&& frame_id(payloads[i]) == fid
                &&& i < payloads.len() - 1 ==> !ends_frame(payloads[i])
            },
    ensures
        ({
            let end = fed(start, payloads.drop_last()).extended(payloads.last());
            &&& end.frame == bodies(payloads)
            &&& end.corrupted == exists|i: int|
                0 <= i < payloads.len() && flags_error(#[trigger] payloads[i])
        }),
    decreases payloads.len(),
{
    let before = payloads.drop_last();
    let last = payloads.last();
    let n = payloads.len() as int;
    assert(last == payloads[n - 1]);
    assert(has_header(payloads[n - 1]));
    if before.len() == 0 {
        assert(fed(start, before) == start);
        assert(bodies(before) == Seq::<u8>::empty());
        assert(start.extended(last).frame =~= bodies(payloads));
        if start.frame.len() > 0 {
            assert(start.interrupted_by(last));
        }
    } else {
        assert forall|i: int| 0 <= i < before.len() implies {
            &&& #[trigger] has_header(before[i])
            &&& frame_id(before[i]) == fid
            &&& i < before.len() - 1 ==> !ends_frame(before[i])
        } by {
            assert(before[i] == payloads[i]);
            assert(has_header(payloads[i]));
        }
        lemma_feed(start, before, fid);
        assert(before.last() == payloads[n - 2]);
        assert(has_header(payloads[n - 2]));
        if fed(start, before).corrupted {
            let i = choose|i: int| 0 <= i < before.len() && flags_error(#[trigger] before[i]);
            assert(flags_error(payloads[i]));
        } else {
            assert forall|i: int| 0 <= i < n - 1 implies !flags_error(#[trigger] payloads[i]) by {
                assert(payloads[i] == before[i]);
            }
        }
    }
}

/// A frame with a flagged payload, or with data of another size than a frame, is dropped: its
/// last payload does not complete it, and the assembler is empty and ready for any frame.
pub proof fn law_bad_frame_is_dropped(start: AssemblerView, payloads: Seq<Seq<u8>>, fid: u8)
    requires
        ready_for(start, fid),
        carry_frame(payloads, fid),
        bodies(payloads).len() != FRAME_BYTES || exists|i: int|
            0 <= i < payloads.len() && flags_error(#[trigger] payloads[i]),
    ensures
        !fed(start, payloads.drop_last()).completed_by(payloads.last()),
        fed(start, payloads).frame.len() == 0,
        forall|next: u8| ready_for(fed(start, payloads), next),
{
    let n = payloads.len() as int;
    assert(has_header(payloads[n - 1]));
    lemma_feed(start, payloads, fid);
}

/// The right eye's image: the first half of each row.
pub open spec fn right_eye(frame: Seq<u8>) -> Seq<u8> {
    Seq::new(
        EYE_IMAGE_BYTES as nat,
        |i: int| frame[i / (EYE_IMAGE_WIDTH as int) * FRAME_ROW_BYTES + i % (
        EYE_IMAGE_WIDTH as int)],
    )
}

/// The left eye's image: the second half of each row.
pub open spec fn left_eye(frame: Seq<u8>) -> Seq<u8> {
    Seq::new(
        EYE_IMAGE_BYTES as nat,
        |i: int| frame[i / (EYE_IMAGE_WIDTH as int) * FRAME_ROW_BYTES + EYE_IMAGE_WIDTH + i % (
        EYE_IMAGE_WIDTH as int)],
    )
}

/// Splits a frame into the two eye images.
pub fn split_frame(frame: &[u8], left: &mut Vec<u8>, right: &mut Vec<u8>)
    requires
        frame@.len() >= EYE_IMAGE_HEIGHT * FRAME_ROW_BYTES,
    ensures
        final(left)@ == left_eye(frame@),
        final(right)@ == right_eye(frame@),
{
    left.clear();
    right.clear();
    let mut row: usize = 0;
    while row < EYE_IMAGE_HEIGHT
        invariant
            row <= EYE_IMAGE_HEIGHT,
            frame@.len() >= EYE_IMAGE_HEIGHT * FRAME_ROW_BYTES,
            left@ == left_eye(frame@).take(row * EYE_IMAGE_WIDTH),
            right@ == right_eye(frame@).take(row * EYE_IMAGE_WIDTH),
        decreases EYE_IMAGE_HEIGHT - row,
    {
        let start: usize = row * FRAME_ROW_BYTES;
        let middle: usize = start + EYE_IMAGE_WIDTH;
        let end: usize = start + FRAME_ROW_BYTES;
        right.extend_from_slice(slice_subrange(frame, start, middle));
        left.extend_from_slice(slice_subrange(frame, middle, end));
        row += 1;
        proof {
            assert(left@ =~= left_eye(frame@).take(row * EYE_IMAGE_WIDTH));
            assert(right@ =~= right_eye(frame@).take(row * EYE_IMAGE_WIDTH));
        }
    }
    proof {
        assert(left_eye(frame@).take(EYE_IMAGE_BYTES as int) =~= left_eye(frame@));
        assert(right_eye(frame@).take(EYE_IMAGE_BYTES as int) =~= right_eye(frame@));
    }
}

/// The two eye images hold every byte of the frame but the row of metadata, each byte once: the
/// rows of the frame are the rows of the right image, each followed by that of the left image.
pub proof fn law_split_loses_only_metadata(frame: Seq<u8>, k: int)
    requires
        frame.len() == FRAME_BYTES,
        0 <= k < EYE_IMAGE_HEIGHT * FRAME_ROW_BYTES,
    ensures
        ({
            let row = k / (FRAME_ROW_BYTES as int);
            let column = k % (FRAME_ROW_BYTES as int);
            frame[k] == if column < EYE_IMAGE_WIDTH {
                right_eye(frame)[row * EYE_IMAGE_WIDTH + column]
            } else {
                left_eye(frame)[row * EYE_IMAGE_WIDTH + column - EYE_IMAGE_WIDTH]
            }
        }),
{
}

/// The flags of a payload are bits of its second byte: bit 0 tells the frame, bit 1 ends it, bit 6
/// flags an error.
pub proof fn law_flags_are_single_bits(payload: Seq<u8>)
    ensures
        frame_id(payload) == payload[1] % 2,
        ends_frame(payload) <==> (payload[1] / 2) % 2 == 1,
        flags_error(payload) <==> (payload[1] / 64) % 2 == 1,
{
    let b = payload[1];
    assert(b & 0x01 == b % 2) by (bit_vector);
    assert(b & 0x02 != 0 <==> (b / 2) % 2 == 1) by (bit_vector);
    assert(b & 0x40 != 0 <==> (b / 64) % 2 == 1) by (bit_vector);
}

/// The other bits have no influence: payloads that differ in them only lead to the same assembler
/// and complete the same frames.
pub proof fn law_other_flags_do_not_matter(
    assembler: AssemblerView,
    payload: Seq<u8>,
    other: Seq<u8>,
)
    requires
        payload.len() == other.len(),
        forall|i: int| 0 <= i < payload.len() && i != 1 ==> payload[i] == other[i],
        payload[1] % 4 == other[1] % 4,
        (payload[1] / 64) % 2 == (other[1] / 64) % 2,
    ensures
        assembler.pushed(payload) == assembler.pushed(other),
        assembler.completed_by(payload) == assembler.completed_by(other),
{
    law_flags_are_single_bits(payload);
    law_flags_are_single_bits(other);
    if has_header(payload) {
        assert(body(payload) =~= body(other));
    }
}

/// How long the header of a payload is, and what else it holds behind the flags, does not matter:
/// only the flags and the data behind the header do.
pub proof fn law_rest_of_the_header_does_not_matter(
    assembler: AssemblerView,
    payload: Seq<u8>,
    other: Seq<u8>,
)
    requires
        2 <= payload[0] <= payload.len(),
        2 <= other[0] <= other.len(),
        payload[1] == other[1],
        payload.skip(payload[0] as int) == other.skip(other[0] as int),
    ensures
        assembler.pushed(payload) == assembler.pushed(other),
        assembler.completed_by(payload) == assembler.completed_by(other),
{
}

/// A payload that is too short for its header changes nothing.
pub proof fn law_truncated_payload_is_ignored(assembler: AssemblerView, payload: Seq<u8>)
    requires
        payload.len() < 2 || payload[0] < 2 || payload[0] > payload.len(),
    ensures
        assembler.pushed(payload) == assembler,
        !assembler.completed_by(payload),
{
}

/// What a payload does to an assembler that holds `held`, data of the frame that it belongs to or
/// no data: its data is added, and it completes the frame if it ends it, nothing was flagged and
/// the data has the size of a frame. A frame that ends otherwise is discarded.
pub proof fn law_payload_adds_its_data(
    held: Seq<u8>,
    corrupted: bool,
    last_fid: Option<u8>,
    payload: Seq<u8>,
)
    requires
        payload.len() >= 2,
        2 <= payload[0] <= payload.len(),
        held.len() == 0 || last_fid is None || last_fid == Some((payload[1] % 2) as u8),
    ensures
        ({
            let assembler = AssemblerView { frame: held, corrupted, last_fid };
            let data = held + payload.skip(payload[0] as int);
            let flagged = corrupted || (payload[1] / 64) % 2 == 1;
            let ends = (payload[1] / 2) % 2 == 1;
            let after = assembler.pushed(payload);
            &&& assembler.completed_by(payload) <==> ends && !flagged && data.len() == 320_800
            &&& after.last_fid == Some((payload[1] % 2) as u8)
            &&& !ends ==> after.frame == data && after.corrupted == flagged
            &&& assembler.completed_by(payload) ==> after.frame == data && !after.corrupted
            &&& ends && !assembler.completed_by(payload) ==> after.frame.len() == 0
                && !after.corrupted
        }),
{
    law_flags_are_single_bits(payload);
}

/// A payload of another frame than the data that an assembler holds does what it does to an
/// assembler without data and without a flag.
pub proof fn law_next_frame_starts_afresh(assembler: AssemblerView, fid: u8, payload: Seq<u8>)
    requires
        payload.len() >= 2,
        2 <= payload[0] <= payload.len(),
        assembler.last_fid == Some(fid),
        fid != payload[1] % 2,
        assembler.frame.len() > 0,
    ensures
        ({
            let fresh = AssemblerView {
                frame: Seq::empty(),
                corrupted: false,
                last_fid: Some(fid),
            };
            &&& assembler.pushed(payload) == fresh.pushed(payload)
            &&& assembler.completed_by(payload) == fresh.completed_by(payload)
        }),
{
    law_flags_are_single_bits(payload);
}

/// To discard a frame is to hold no data and no flag, and to remember which frame came last.
pub proof fn law_discarding_keeps_the_frame_id(assembler: AssemblerView)
    ensures
        assembler.discarded().frame.len() == 0,
        !assembler.discarded().corrupted,
        assembler.discarded().last_fid == assembler.last_fid,
{
}

/// The model of an assembler is what it holds.
pub proof fn law_assembler_is_modelled_as_it_is(assembler: FrameAssembler)
    ensures
        assembler@.frame == assembler.frame@,
        assembler@.corrupted == assembler.corrupted,
        assembler@.last_fid == assembler.last_fid,
{
}

/// Row by row and column by column: each eye image has 400 rows of 400 pixels, the right one in the
/// left half of the frame and the left one in the right half.
pub proof fn law_eyes_lie_side_by_side(frame: Seq<u8>, row: int, column: int)
    requires
        frame.len() >= 320_000,
        0 <= row < 400,
        0 <= column < 400,
    ensures
        right_eye(frame).len() == 160_000,
        left_eye(frame).len() == 160_000,
        right_eye(frame)[400 * row + column] == frame[800 * row + column],
        left_eye(frame)[400 * row + column] == frame[800 * row + 400 + column],
{
    assert((400 * row + column) / 400 == row);
    assert((400 * row + column) % 400 == column);
}

} // verus!
