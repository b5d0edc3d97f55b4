//! USB descriptors of the camera: which video streaming interface to use, and at what rate.
use crate::bytes::{le16, le32, read_le16, read_le32};
use crate::search::{
    first_where, last_where, lemma_first_where, lemma_first_where_same, lemma_last_where,
    lemma_last_where_same,
};
use vstd::prelude::*;
use vstd::slice::slice_subrange;

verus! {

/// Descriptor type of an interface descriptor.
pub const INTERFACE: u8 = 0x04;

/// Descriptor type of a class-specific interface descriptor.
pub const CLASS_SPECIFIC: u8 = 0x24;

/// Interface class of USB video.
pub const VIDEO_CLASS: u8 = 14;

pub const VIDEO_CONTROL: u8 = 1;

pub const VIDEO_STREAMING: u8 = 2;

/// Descriptor subtype VC_HEADER under a control interface, VS_INPUT_HEADER under a streaming one.
pub const HEADER: u8 = 0x01;

pub const FORMAT_UNCOMPRESSED: u8 = 0x04;

pub const FRAME_UNCOMPRESSED: u8 = 0x05;

/// Version that is assumed where no video control header comes before the streaming interface.
pub const DEFAULT_UVC_VERSION: u16 = 0x0100;

/// Offset of the frame intervals in a VS_FRAME_UNCOMPRESSED descriptor.
pub const INTERVALS_OFFSET: usize = 26;

/// Frame intervals are given in units of 100ns.
pub const INTERVAL_UNITS_PER_SECOND: u32 = 10_000_000;

/// What is needed to negotiate a stream and read from it.
pub struct StreamingInterface {
    pub interface_number: u16,
    pub endpoint_address: u32,
    pub format_index: u8,
    pub frame_index: u8,
    /// Supported frame intervals in 100ns units
    pub frame_intervals: Vec<u32>,
    pub uvc_version: u16,
}

/// The view of a `StreamingInterface`.
#[verifier::ext_equal]
pub struct StreamingInterfaceView {
    pub interface_number: u16,
    pub endpoint_address: u32,
    pub format_index: u8,
    pub frame_index: u8,
    pub frame_intervals: Seq<u32>,
    pub uvc_version: u16,
}

impl View for StreamingInterface {
    type V = StreamingInterfaceView;

    open spec fn view(&self) -> StreamingInterfaceView {
        StreamingInterfaceView {
            interface_number: self.interface_number,
            endpoint_address: self.endpoint_address,
            format_index: self.format_index,
            frame_index: self.frame_index,
            frame_intervals: self.frame_intervals@,
            uvc_version: self.uvc_version,
        }
    }
}

impl Clone for StreamingInterface {
    fn clone(&self) -> (copy: Self)
        ensures
            copy@ == self@,
    {
        StreamingInterface {
            interface_number: self.interface_number,
            endpoint_address: self.endpoint_address,
            format_index: self.format_index,
            frame_index: self.frame_index,
            frame_intervals: self.frame_intervals.clone(),
            uvc_version: self.uvc_version,
        }
    }
}

impl StreamingInterfaceView {
    /// The interface names a format and a frame, and has at least one frame interval. All its
    /// intervals are positive.
    pub open spec fn usable(self) -> bool {
        &&& self.format_index != 0
        &&& self.frame_index != 0
        &&& self.frame_intervals.len() > 0
        &&& forall|i: int| 0 <= i < self.frame_intervals.len() ==> self.frame_intervals[i] > 0
    }
}

pub open spec fn optional_view(interface: Option<StreamingInterface>) -> Option<
    StreamingInterfaceView,
> {
    match interface {
        Some(interface) => Some(interface@),
        None => None,
    }
}

/// A descriptor starts with its own length and its type, and lies inside the bytes.
pub open spec fn starts_descriptor(bytes: Seq<u8>) -> bool {
    bytes.len() >= 2 && 2 <= bytes[0] <= bytes.len()
}

/// The descriptors that `bytes` is made of, up to the first place where none starts.
pub open spec fn split_descriptors(bytes: Seq<u8>) -> Seq<Seq<u8>>
    decreases bytes.len(),
{
    if starts_descriptor(bytes) {
        seq![bytes.take(bytes[0] as int)] + split_descriptors(bytes.skip(bytes[0] as int))
    } else {
        Seq::empty()
    }
}

pub open spec fn is_interface(ds: Seq<Seq<u8>>, k: int) -> bool {
    ds[k][1] == INTERFACE
}

/// Descriptor `k` belongs to a video interface of this subclass: the last interface descriptor
/// before it is one.
pub open spec fn under_video(ds: Seq<Seq<u8>>, k: int, subclass: u8) -> bool {
    match last_where(|j: int| is_interface(ds, j), k) {
        Some(j) => ds[j][5] == VIDEO_CLASS && ds[j][6] == subclass,
        None => false,
    }
}

/// Descriptor `k` is class-specific under a video interface of this subclass, and has this
/// subtype and at least this length.
pub open spec fn is_video(
    ds: Seq<Seq<u8>>,
    k: int,
    subclass: u8,
    subtype: u8,
    min_len: int,
) -> bool {
    &&& ds[k][1] == CLASS_SPECIFIC
    &&& under_video(ds, k, subclass)
    &&& ds[k].len() >= min_len
    &&& ds[k][2] == subtype
}

pub open spec fn is_control_header(ds: Seq<Seq<u8>>, k: int) -> bool {
    is_video(ds, k, VIDEO_CONTROL, HEADER, 5)
}

pub open spec fn is_input_header(ds: Seq<Seq<u8>>, k: int) -> bool {
    is_video(ds, k, VIDEO_STREAMING, HEADER, 7)
}

pub open spec fn is_format(ds: Seq<Seq<u8>>, k: int) -> bool {
    is_video(ds, k, VIDEO_STREAMING, FORMAT_UNCOMPRESSED, 5)
}

pub open spec fn is_frame(ds: Seq<Seq<u8>>, k: int) -> bool {
    is_video(ds, k, VIDEO_STREAMING, FRAME_UNCOMPRESSED, INTERVALS_OFFSET as int)
}

/// Every descriptor is long enough for the fields that decide what it is: interface descriptors
/// reach the subclass, class-specific ones of video interfaces reach the subtype.
pub open spec fn readable(ds: Seq<Seq<u8>>) -> bool {
    forall|k: int| 0 <= k < ds.len() ==> readable_at(ds, k)
}

pub open spec fn readable_at(ds: Seq<Seq<u8>>, k: int) -> bool {
    &&& is_interface(ds, k) ==> ds[k].len() >= 7
    &&& ds[k][1] == CLASS_SPECIFIC && (under_video(ds, k, VIDEO_CONTROL) || under_video(
        ds,
        k,
        VIDEO_STREAMING,
    )) ==> ds[k].len() >= 3
}

/// The first input header among the first `n` descriptors.
pub open spec fn input_header(ds: Seq<Seq<u8>>, n: int) -> Option<int> {
    first_where(|k: int| is_input_header(ds, k), n)
}

/// The version in the last video control header among the first `n` descriptors.
pub open spec fn uvc_version(ds: Seq<Seq<u8>>, n: int) -> u16 {
    match last_where(|k: int| is_control_header(ds, k), n) {
        Some(k) => le16(ds[k], 3) as u16,
        None => DEFAULT_UVC_VERSION,
    }
}

/// The number of the interface that descriptor `n` belongs to.
pub open spec fn interface_number(ds: Seq<Seq<u8>>, n: int) -> u16 {
    match last_where(|j: int| is_interface(ds, j), n) {
        Some(j) => ds[j][2] as u16,
        None => 0,
    }
}

/// Descriptors `a` and `b` belong to the same interface, if to different alternate settings of it.
pub open spec fn same_interface(ds: Seq<Seq<u8>>, a: int, b: int) -> bool {
    interface_number(ds, a) == interface_number(ds, b)
}

/// No other format of its interface lies between format `f` and `b`.
pub open spec fn same_format(ds: Seq<Seq<u8>>, f: int, b: int) -> bool {
    forall|k: int| f < k < b && #[trigger] is_format(ds, k) ==> !same_interface(ds, f, k)
}

/// Descriptor `f` is an uncompressed format, with an index, of the interface with input header
/// `h`.
pub open spec fn is_format_of(ds: Seq<Seq<u8>>, h: int, f: int) -> bool {
    h < f && is_format(ds, f) && ds[f][3] != 0 && same_interface(ds, h, f)
}

/// Descriptor `g` is an uncompressed frame, with an index, of format `f`.
pub open spec fn is_frame_of(ds: Seq<Seq<u8>>, f: int, g: int) -> bool {
    &&& f < g && is_frame(ds, g) && ds[g][3] != 0
    &&& same_interface(ds, f, g) && same_format(ds, f, g)
}

/// The first format of the interface with input header `h`, among the first `n` descriptors.
pub open spec fn format_of(ds: Seq<Seq<u8>>, h: int, n: int) -> Option<int> {
    first_where(|k: int| is_format_of(ds, h, k), n)
}

/// The first frame of format `f`, among the first `n` descriptors.
pub open spec fn frame_of(ds: Seq<Seq<u8>>, f: int, n: int) -> Option<int> {
    first_where(|k: int| is_frame_of(ds, f, k), n)
}

/// The interval fields of a frame descriptor.
pub open spec fn interval_fields(d: Seq<u8>) -> Seq<u32> {
    Seq::new(
        ((d.len() - INTERVALS_OFFSET) / 4) as nat,
        |i: int| le32(d, INTERVALS_OFFSET + 4 * i) as u32,
    )
}

/// The frame intervals that a frame descriptor lists: its interval fields without the zeros.
pub open spec fn listed_intervals(d: Seq<u8>) -> Seq<u32> {
    interval_fields(d).filter(|interval: u32| interval > 0)
}

/// The interface with input header `h`, at the format `f` and the frame `g`.
pub open spec fn interface_at(ds: Seq<Seq<u8>>, h: int, f: int, g: int) -> StreamingInterfaceView {
    StreamingInterfaceView {
        interface_number: interface_number(ds, h),
        endpoint_address: ds[h][6] as u32,
        format_index: ds[f][3],
        frame_index: ds[g][3],
        frame_intervals: listed_intervals(ds[g]),
        uvc_version: uvc_version(ds, h),
    }
}

/// The first video streaming interface, at its first format and the first frame of that format,
/// if it has these and the frame lists an interval.
pub open spec fn streaming_interface(ds: Seq<Seq<u8>>) -> Option<StreamingInterfaceView> {
    let n = ds.len() as int;
    match input_header(ds, n) {
        None => None,
        Some(h) => match format_of(ds, h, n) {
            None => None,
            Some(f) => match frame_of(ds, f, n) {
                None => None,
                Some(g) => if listed_intervals(ds[g]).len() > 0 {
                    Some(interface_at(ds, h, f, g))
                } else {
                    None
                },
            },
        },
    }
}

proof fn lemma_split_step(bytes: Seq<u8>)
    requires
        starts_descriptor(bytes),
    ensures
        split_descriptors(bytes).len() == 1 + split_descriptors(
            bytes.skip(bytes[0] as int),
        ).len(),
        split_descriptors(bytes)[0] == bytes.take(bytes[0] as int),
        split_descriptors(bytes).skip(1) == split_descriptors(bytes.skip(bytes[0] as int)),
{
    assert(split_descriptors(bytes).skip(1) =~= split_descriptors(bytes.skip(bytes[0] as int)));
}

/// Appends the frame intervals that the frame descriptor `d` lists.
fn push_listed_intervals(intervals: &mut Vec<u32>, d: &[u8])
    requires
        d@.len() >= INTERVALS_OFFSET,
    ensures
        final(intervals)@ == old(intervals)@ + listed_intervals(d@),
{
    let ghost fields = interval_fields(d@);
    let ghost positive = |interval: u32| interval > 0;
    let mut k: usize = INTERVALS_OFFSET;
    let ghost mut i: int = 0;
    proof {
        assert(fields.take(0).filter(positive) =~= Seq::<u32>::empty()) by {
            reveal(Seq::filter);
        }
        assert(intervals@ =~= old(intervals)@ + fields.take(0).filter(positive));
    }
    while d.len() - k >= 4
        invariant
            INTERVALS_OFFSET <= k <= d@.len(),
            k == INTERVALS_OFFSET + 4 * i,
            fields == interval_fields(d@),
            positive == (|interval: u32| interval > 0),
            0 <= i <= fields.len(),
            intervals@ == old(intervals)@ + fields.take(i).filter(positive),
        decreases d@.len() - k,
    {
        let interval: u32 = read_le32(d, k);
        proof {
            assert(fields[i] == interval);
            assert(fields.take(i + 1).drop_last() =~= fields.take(i));
            assert(fields.take(i + 1).filter(positive) == if positive(interval) {
                fields.take(i).filter(positive).push(interval)
            } else {
                fields.take(i).filter(positive)
            }) by {
                reveal(Seq::filter);
            }
        }
        if interval > 0 {
            intervals.push(interval);
        }
        proof {
            assert(intervals@ =~= old(intervals)@ + fields.take(i + 1).filter(positive));
            i = i + 1;
        }
        k += 4;
    }
    proof {
        assert(fields.take(i) =~= fields);
    }
}

proof fn lemma_listed_positive(d: Seq<u8>)
    ensures
        forall|i: int| 0 <= i < listed_intervals(d).len() ==> listed_intervals(d)[i] > 0,
{
    let positive = |interval: u32| interval > 0;
    let fields = interval_fields(d);
    assert forall|i: int| 0 <= i < listed_intervals(d).len() implies listed_intervals(d)[i] > 0 by {
        fields.lemma_filter_pred(positive, i);
    }
}

/// What is known of the first video streaming interface on the way through the descriptors.
/// Indices of zero stand for a format or a frame that was not found yet.
struct Walk {
    interface: Option<StreamingInterface>,
    /// The last format of that interface is the one that was taken.
    in_format: bool,
}

/// The view of a `Walk`.
struct WalkView {
    interface: Option<StreamingInterfaceView>,
    in_format: bool,
}

impl View for Walk {
    type V = WalkView;

    closed spec fn view(&self) -> WalkView {
        WalkView {
            interface: optional_view(self.interface),
            in_format: self.in_format,
        }
    }
}

impl WalkView {
    /// After a class-specific descriptor of the streaming interface of this number.
    spec fn after_streaming(self, d: Seq<u8>, number: u16, version: u16) -> WalkView {
        match self.interface {
            None => if d[2] == HEADER && d.len() >= 7 {
                WalkView {
                    interface: Some(
                        StreamingInterfaceView {
                            interface_number: number,
                            endpoint_address: d[6] as u32,
                            format_index: 0,
                            frame_index: 0,
                            frame_intervals: Seq::empty(),
                            uvc_version: version,
                        },
                    ),
                    in_format: false,
                }
            } else {
                self
            },
            Some(known) => if number != known.interface_number {
                self
            } else if d[2] == FORMAT_UNCOMPRESSED && d.len() >= 5 {
                let taken = known.format_index == 0 && d[3] != 0;
                WalkView {
                    interface: Some(
                        if taken {
                            StreamingInterfaceView { format_index: d[3], ..known }
                        } else {
                            known
                        },
                    ),
                    in_format: taken,
                }
            } else if d[2] == FRAME_UNCOMPRESSED && d.len() >= INTERVALS_OFFSET && self.in_format
                && known.frame_index == 0 && d[3] != 0 {
                WalkView {
                    interface: Some(
                        StreamingInterfaceView {
                            frame_index: d[3],
                            frame_intervals: listed_intervals(d),
                            ..known
                        },
                    ),
                    ..self
                }
            } else {
                self
            },
        }
    }
}

/// What the first `n` descriptors say of the first video streaming interface.
spec fn walked(ds: Seq<Seq<u8>>, n: int) -> WalkView {
    match input_header(ds, n) {
        None => WalkView { interface: None, in_format: false },
        Some(h) => {
            let start = StreamingInterfaceView {
                interface_number: interface_number(ds, h),
                endpoint_address: ds[h][6] as u32,
                format_index: 0,
                frame_index: 0,
                frame_intervals: Seq::empty(),
                uvc_version: uvc_version(ds, h),
            };
            match format_of(ds, h, n) {
                None => WalkView {
                    interface: Some(start),
                    in_format: false,
                },
                Some(f) => WalkView {
                    interface: Some(
                        match frame_of(ds, f, n) {
                            None => StreamingInterfaceView { format_index: ds[f][3], ..start },
                            Some(g) => interface_at(ds, h, f, g),
                        },
                    ),
                    in_format: same_format(ds, f, n),
                },
            }
        },
    }
}

proof fn lemma_step(ds: Seq<Seq<u8>>, n: int)
    requires
        0 <= n < ds.len(),
        readable_at(ds, n),
    ensures
        walked(ds, n + 1) == if ds[n][1] == CLASS_SPECIFIC && under_video(
            ds,
            n,
            VIDEO_STREAMING,
        ) {
            walked(ds, n).after_streaming(ds[n], interface_number(ds, n), uvc_version(ds, n))
        } else {
            walked(ds, n)
        },
{
    lemma_first_where(|k: int| is_input_header(ds, k), n);
    if let Some(h) = input_header(ds, n) {
        lemma_first_where(|k: int| is_format_of(ds, h, k), n);
        if let Some(f) = format_of(ds, h, n) {
            lemma_first_where(|k: int| is_frame_of(ds, f, k), n);
            assert(same_format(ds, f, n + 1) == (same_format(ds, f, n) && !(is_format(ds, n)
                && same_interface(ds, f, n))));
        } else {
            lemma_first_where(|k: int| is_frame_of(ds, n, k), n + 1);
        }
    } else {
        lemma_first_where(|k: int| is_format_of(ds, n, k), n + 1);
    }
}

proof fn lemma_no_frame_yet(ds: Seq<Seq<u8>>, n: int)
    ensures
        walked(ds, n).interface matches Some(known) ==> known.frame_index == 0
            ==> known.frame_intervals.len() == 0,
{
    if let Some(h) = input_header(ds, n) {
        if let Some(f) = format_of(ds, h, n) {
            lemma_first_where(|k: int| is_frame_of(ds, f, k), n);
        }
    }
}

/// With all descriptors read, what is known is the streaming interface if it is complete.
proof fn lemma_walked_all(ds: Seq<Seq<u8>>)
    ensures
        streaming_interface(ds) == match walked(ds, ds.len() as int).interface {
            Some(known) => if known.format_index != 0 && known.frame_index != 0
                && known.frame_intervals.len() > 0 {
                Some(known)
            } else {
                None
            },
            None => None,
        },
        streaming_interface(ds) matches Some(interface) ==> interface.usable(),
{
    let n = ds.len() as int;
    if let Some(h) = input_header(ds, n) {
        lemma_first_where(|k: int| is_format_of(ds, h, k), n);
        if let Some(f) = format_of(ds, h, n) {
            lemma_first_where(|k: int| is_frame_of(ds, f, k), n);
            if let Some(g) = frame_of(ds, f, n) {
                lemma_listed_positive(ds[g]);
            }
        }
    }
}

impl Walk {
    /// Takes in a class-specific descriptor of the streaming interface of this number.
    fn read_streaming_descriptor(&mut self, d: &[u8], number: u16, version: u16)
        requires
            d@.len() >= 3,
            old(self)@.interface matches Some(known) ==> known.frame_index == 0
                ==> known.frame_intervals.len() == 0,
        ensures
            final(self)@ == old(self)@.after_streaming(d@, number, version),
    {
        match &mut self.interface {
            None => {
                if d[2] == HEADER && d.len() >= 7 {
                    self.interface = Some(
                        StreamingInterface {
                            interface_number: number,
                            endpoint_address: d[6] as u32,
                            format_index: 0,
                            frame_index: 0,
                            frame_intervals: Vec::new(),
                            uvc_version: version,
                        },
                    );
                    self.in_format = false;
                }
            },
            Some(known) => {
                if number != known.interface_number {
                    return;
                }
                if d[2] == FORMAT_UNCOMPRESSED && d.len() >= 5 {
                    self.in_format = known.format_index == 0 && d[3] != 0;
                    if self.in_format {
                        known.format_index = d[3];
                    }
                } else if d[2] == FRAME_UNCOMPRESSED && d.len() >= INTERVALS_OFFSET {
                    if self.in_format && known.frame_index == 0 && d[3] != 0 {
                        known.frame_index = d[3];
                        push_listed_intervals(&mut known.frame_intervals, d);
                    }
                }
            },
        }
        assert(self@.interface is Some ==> self@.interface->0.frame_intervals =~= old(
            self,
        )@.after_streaming(d@, number, version).interface->0.frame_intervals);
    }
}

/// Finds the first video streaming interface in the raw descriptors of the camera.
///
/// Its format is its first uncompressed one that has an index, and its frame the first one of that
/// format that has an index. An interface without such a format, or whose format has no such frame,
/// is of no use, and so is one whose frame lists no interval.
///
/// The intervals are those that the frame lists, since these are what it supports: a frame without
/// an index, which cannot be asked for, is passed over together with the intervals that it lists.
/// Formats and frames of other interfaces are passed over too. An alternate setting is no other
/// interface, it has the same number.
pub fn parse_streaming_interface(descriptors: &[u8]) -> (interface: Option<StreamingInterface>)
    requires
        readable(split_descriptors(descriptors@)),
    ensures
        match interface {
            Some(interface) => streaming_interface(split_descriptors(descriptors@)) == Some(
                interface@,
            ) && interface@.usable(),
            None => streaming_interface(split_descriptors(descriptors@)) is None,
        },
{
    let ghost ds = split_descriptors(descriptors@);
    let ghost mut n: int = 0;
    let mut walk: Walk = Walk { interface: None, in_format: false };
    let mut current_number: u16 = 0;
    let mut current_class: u8 = 0;
    let mut current_subclass: u8 = 0;
    let mut version: u16 = DEFAULT_UVC_VERSION;
    let mut i: usize = 0;
    proof {
        assert(descriptors@.skip(0) =~= descriptors@);
        assert(ds.skip(0) =~= ds);
    }
    loop
        invariant_except_break
            i <= descriptors@.len(),
            ds.skip(n) == split_descriptors(descriptors@.skip(i as int)),
        invariant
            readable(ds),
            0 <= n <= ds.len(),
            match last_where(|j: int| is_interface(ds, j), n) {
                Some(j) => current_number == ds[j][2] && current_class == ds[j][5]
                    && current_subclass == ds[j][6],
                None => current_number == 0 && current_class == 0 && current_subclass == 0,
            },
            version == uvc_version(ds, n),
            walk@ == walked(ds, n),
        ensures
            n == ds.len(),
        decreases descriptors@.len() - i,
    {
        let ghost rest = descriptors@.skip(i as int);
        assert(ds.skip(n).len() == ds.len() - n);
        if descriptors.len() - i < 2 {
            break;
        }
        let len: usize = descriptors[i] as usize;
        if len < 2 || len > descriptors.len() - i {
            break;
        }
        proof {
            assert(starts_descriptor(rest));
            lemma_split_step(rest);
            assert(ds.skip(n)[0] == ds[n]);
            assert(ds.skip(n).skip(1) =~= ds.skip(n + 1));
            assert(rest.skip(len as int) =~= descriptors@.skip(i + len));
            assert(readable_at(ds, n));
        }
        let d: &[u8] = slice_subrange(descriptors, i, i + len);
        assert(d@ =~= ds[n]);
        let is_video_control: bool = current_class == VIDEO_CLASS && current_subclass
            == VIDEO_CONTROL;
        let is_video_streaming: bool = current_class == VIDEO_CLASS && current_subclass
            == VIDEO_STREAMING;
        assert(is_video_control == under_video(ds, n, VIDEO_CONTROL));
        assert(is_video_streaming == under_video(ds, n, VIDEO_STREAMING));
        proof {
            lemma_step(ds, n);
        }
        if d[1] == INTERFACE {
            current_number = d[2] as u16;
            current_class = d[5];
            current_subclass = d[6];
        } else if d[1] == CLASS_SPECIFIC && is_video_control {
            if d[2] == HEADER && len >= 5 {
                version = read_le16(d, 3);
            }
        } else if d[1] == CLASS_SPECIFIC && is_video_streaming {
            proof {
                lemma_no_frame_yet(ds, n);
            }
            walk.read_streaming_descriptor(d, current_number, version);
        }
        proof {
            n = n + 1;
        }
        i += len;
    }
    proof {
        lemma_walked_all(ds);
    }
    match walk.interface {
        Some(interface) => if interface.format_index != 0 && interface.frame_index != 0
            && interface.frame_intervals.len() > 0 {
            Some(interface)
        } else {
            None
        },
        None => None,
    }
}

/// Whether `parse_streaming_interface` can read these descriptors.
pub fn descriptors_readable(descriptors: &[u8]) -> (b: bool)
    ensures
        b == readable(split_descriptors(descriptors@)),
{
    let ghost ds = split_descriptors(descriptors@);
    let ghost mut n: int = 0;
    let mut in_video: bool = false;
    let mut i: usize = 0;
    proof {
        assert(descriptors@.skip(0) =~= descriptors@);
        assert(ds.skip(0) =~= ds);
    }
    loop
        invariant_except_break
            i <= descriptors@.len(),
            ds.skip(n) == split_descriptors(descriptors@.skip(i as int)),
        invariant
            ds == split_descriptors(descriptors@),
            0 <= n <= ds.len(),
            in_video == (under_video(ds, n, VIDEO_CONTROL) || under_video(ds, n, VIDEO_STREAMING)),
            forall|k: int| 0 <= k < n ==> readable_at(ds, k),
        ensures
            n == ds.len(),
        decreases descriptors@.len() - i,
    {
        let ghost rest = descriptors@.skip(i as int);
        assert(ds.skip(n).len() == ds.len() - n);
        if descriptors.len() - i < 2 {
            break;
        }
        let len: usize = descriptors[i] as usize;
        if len < 2 || len > descriptors.len() - i {
            break;
        }
        proof {
            assert(starts_descriptor(rest));
            lemma_split_step(rest);
            assert(ds.skip(n)[0] == ds[n]);
            assert(ds.skip(n).skip(1) =~= ds.skip(n + 1));
            assert(rest.skip(len as int) =~= descriptors@.skip(i + len));
        }
        let d: &[u8] = slice_subrange(descriptors, i, i + len);
        assert(d@ =~= ds[n]);
        if (d[1] == INTERFACE && len < 7) || (d[1] == CLASS_SPECIFIC && in_video && len < 3) {
            assert(!readable_at(ds, n));
            return false;
        }
        if d[1] == INTERFACE {
            in_video = d[5] == VIDEO_CLASS && (d[6] == VIDEO_CONTROL || d[6] == VIDEO_STREAMING);
        }
        proof {
            n = n + 1;
        }
        i += len;
    }
    true
}

/// A frame every `interval` units of time makes at least `fps` frames per second. A rate of zero
/// counts as one.
pub open spec fn is_fast_enough(interval: u32, fps: u32) -> bool {
    interval * (if fps == 0 {
        1
    } else {
        fps as int
    }) <= INTERVAL_UNITS_PER_SECOND
}

/// `interval` is the one to use out of `intervals`: the slowest rate of at least `fps`, or the
/// fastest of all where none is.
pub open spec fn is_selected(intervals: Seq<u32>, fps: u32, interval: u32) -> bool {
    &&& intervals.contains(interval)
    &&& if exists|i: int| 0 <= i < intervals.len() && is_fast_enough(#[trigger] intervals[i], fps) {
        &&& is_fast_enough(interval, fps)
        &&& forall|i: int|
            0 <= i < intervals.len() && is_fast_enough(#[trigger] intervals[i], fps)
                ==> intervals[i] <= interval
    } else {
        forall|i: int| 0 <= i < intervals.len() ==> interval <= #[trigger] intervals[i]
    }
}

proof fn lemma_fits_as_often(x: int, rate: int, total: int)
    by (nonlinear_arith)
    requires
        x >= 0,
        rate > 0,
        total >= 0,
    ensures
        x * rate <= total <==> x <= total / rate,
{
}

/// The slowest camera frame rate that still satisfies the requested one.
pub fn select_frame_interval(interface: &StreamingInterface, fps: u32) -> (interval: u32)
    requires
        interface.frame_intervals@.len() > 0,
    ensures
        is_selected(interface.frame_intervals@, fps, interval),
        interface@.usable() ==> interval > 0,
{
    let max_interval: u32 = INTERVAL_UNITS_PER_SECOND / (if fps == 0 {
        1
    } else {
        fps
    });
    proof {
        let rate: int = if fps == 0 {
            1
        } else {
            fps as int
        };
        assert forall|x: u32| #[trigger] is_fast_enough(x, fps) <==> x <= max_interval by {
            lemma_fits_as_often(x as int, rate, INTERVAL_UNITS_PER_SECOND as int);
        }
    }
    let ghost intervals = interface.frame_intervals@;
    let mut slowest: Option<u32> = None;
    let mut fastest: u32 = interface.frame_intervals[0];
    let mut i: usize = 0;
    while i < interface.frame_intervals.len()
        invariant
            i <= intervals.len(),
            intervals == interface.frame_intervals@,
            forall|x: u32| #[trigger] is_fast_enough(x, fps) <==> x <= max_interval,
            intervals.contains(fastest),
            forall|j: int| 0 <= j < i ==> fastest <= #[trigger] intervals[j],
            match slowest {
                Some(s) => s <= max_interval && intervals.contains(s) && forall|j: int|
                    0 <= j < i && #[trigger] intervals[j] <= max_interval ==> intervals[j] <= s,
                None => forall|j: int| 0 <= j < i ==> #[trigger] intervals[j] > max_interval,
            },
        decreases intervals.len() - i,
    {
        let interval: u32 = interface.frame_intervals[i];
        if interval <= max_interval {
            slowest =
            match slowest {
                Some(s) => if s < interval {
                    Some(interval)
                } else {
                    Some(s)
                },
                None => Some(interval),
            };
        }
        if interval < fastest {
            fastest = interval;
        }
        i += 1;
    }
    match slowest {
        Some(s) => s,
        None => fastest,
    }
}

/// Every descriptor holds its own length. The descriptors are a prefix of the bytes, none starts
/// where they end, and the bytes behind that place do not matter.
pub proof fn law_descriptors_tile_a_prefix(bytes: Seq<u8>)
    ensures
        forall|k: int|
            0 <= k < split_descriptors(bytes).len() ==> 2 <= (#[trigger] split_descriptors(
                bytes,
            )[k]).len() == split_descriptors(bytes)[k][0],
        split_descriptors(bytes).flatten().len() <= bytes.len(),
        split_descriptors(bytes).flatten() == bytes.take(
            split_descriptors(bytes).flatten().len() as int,
        ),
        !starts_descriptor(bytes.skip(split_descriptors(bytes).flatten().len() as int)),
        split_descriptors(bytes.take(split_descriptors(bytes).flatten().len() as int))
            == split_descriptors(bytes),
    decreases bytes.len(),
{
    let ds = split_descriptors(bytes);
    if starts_descriptor(bytes) {
        let len = bytes[0] as int;
        let rest = bytes.skip(len);
        law_descriptors_tile_a_prefix(rest);
        let tail = split_descriptors(rest);
        lemma_split_step(bytes);
        assert(ds.drop_first() =~= tail);
        assert(ds.flatten() == bytes.take(len) + tail.flatten());
        let end = ds.flatten().len() as int;
        assert(bytes.take(end) =~= bytes.take(len) + rest.take(end - len));
        assert(bytes.skip(end) =~= rest.skip(end - len));
        let cut = bytes.take(end);
        assert(cut[0] == bytes[0]);
        assert(cut.take(len) =~= bytes.take(len));
        assert(cut.skip(len) =~= rest.take(end - len));
        assert(split_descriptors(cut) == split_descriptors(bytes));
        assert forall|k: int| 0 <= k < ds.len() implies 2 <= (#[trigger] ds[k]).len()
            == ds[k][0] by {
            if k > 0 {
                assert(ds[k] == tail[k - 1]);
            }
        }
    } else {
        assert(ds.flatten() =~= Seq::<u8>::empty());
        assert(bytes.take(0) =~= Seq::<u8>::empty());
        assert(bytes.skip(0) =~= bytes);
        assert(split_descriptors(bytes.take(0)) =~= ds);
    }
}

/// `k` is the first place where `p` holds.
pub open spec fn is_first(p: spec_fn(int) -> bool, n: int, k: int) -> bool {
    0 <= k < n && p(k) && forall|j: int| 0 <= j < k ==> !#[trigger] p(j)
}

pub open spec fn is_first_input_header(ds: Seq<Seq<u8>>, h: int) -> bool {
    is_first(|k: int| is_input_header(ds, k), ds.len() as int, h)
}

/// `f` is the selected format of the interface with input header `h`.
pub open spec fn is_first_format_of(ds: Seq<Seq<u8>>, h: int, f: int) -> bool {
    is_first(|k: int| is_format_of(ds, h, k), ds.len() as int, f)
}

/// `g` is the first frame of format `f`.
pub open spec fn is_first_frame_of(ds: Seq<Seq<u8>>, f: int, g: int) -> bool {
    is_first(|k: int| is_frame_of(ds, f, k), ds.len() as int, g)
}

proof fn lemma_is_first(p: spec_fn(int) -> bool, n: int, k: int)
    ensures
        is_first(p, n, k) <==> first_where(p, n) == Some(k),
{
    lemma_first_where(p, n);
}

/// The interface is that of the first input header, with its first format and the first frame of
/// that format. It is found exactly where that frame lists an interval.
pub proof fn law_first_streaming_interface(ds: Seq<Seq<u8>>, h: int, f: int, g: int)
    requires
        is_first_input_header(ds, h),
        is_first_format_of(ds, h, f),
        is_first_frame_of(ds, f, g),
    ensures
        streaming_interface(ds) is Some <==> listed_intervals(ds[g]).len() > 0,
        streaming_interface(ds) matches Some(interface) ==> {
            &&& interface.usable()
            &&& interface.interface_number == interface_number(ds, h)
            &&& interface.endpoint_address == ds[h][6]
            &&& interface.format_index == ds[f][3]
            &&& interface.frame_index == ds[g][3]
            &&& interface.frame_intervals == listed_intervals(ds[g])
            &&& interface.uvc_version == uvc_version(ds, h)
        },
{
    let n = ds.len() as int;
    lemma_is_first(|k: int| is_input_header(ds, k), n, h);
    lemma_is_first(|k: int| is_format_of(ds, h, k), n, f);
    lemma_is_first(|k: int| is_frame_of(ds, f, k), n, g);
    lemma_listed_positive(ds[g]);
}

/// A format is never paired with a frame of another one: the frame of the interface is the first
/// one of the selected format, and there is no interface where that format has none.
pub proof fn law_frame_is_of_the_selected_format(ds: Seq<Seq<u8>>, h: int, f: int)
    requires
        is_first_input_header(ds, h),
        is_first_format_of(ds, h, f),
    ensures
        (forall|g: int| 0 <= g < ds.len() ==> !#[trigger] is_frame_of(ds, f, g))
            ==> streaming_interface(ds) is None,
        streaming_interface(ds) matches Some(interface) ==> {
            &&& interface.format_index == ds[f][3]
            &&& exists|g: int|
                {
                    &&& #[trigger] is_first_frame_of(ds, f, g)
                    &&& interface.frame_index == ds[g][3]
                    &&& interface.frame_intervals == listed_intervals(ds[g])
                }
        },
{
    let n = ds.len() as int;
    lemma_is_first(|k: int| is_input_header(ds, k), n, h);
    lemma_is_first(|k: int| is_format_of(ds, h, k), n, f);
    lemma_first_where(|k: int| is_frame_of(ds, f, k), n);
    if let Some(g) = frame_of(ds, f, n) {
        lemma_is_first(|k: int| is_frame_of(ds, f, k), n, g);
        assert(is_frame_of(ds, f, g));
        assert(is_first_frame_of(ds, f, g));
    }
}

/// Without an input header there is no interface.
pub proof fn law_no_input_header_no_interface(ds: Seq<Seq<u8>>)
    requires
        forall|k: int| 0 <= k < ds.len() ==> !is_input_header(ds, k),
    ensures
        streaming_interface(ds) is None,
{
    lemma_first_where(|k: int| is_input_header(ds, k), ds.len() as int);
}

/// Where the first streaming interface has no format there is none to use, whatever others there
/// are.
pub proof fn law_interface_without_format_is_refused(ds: Seq<Seq<u8>>, h: int)
    requires
        is_first_input_header(ds, h),
        forall|f: int| 0 <= f < ds.len() ==> !is_format_of(ds, h, f),
    ensures
        streaming_interface(ds) is None,
{
    let n = ds.len() as int;
    lemma_is_first(|k: int| is_input_header(ds, k), n, h);
    lemma_first_where(|k: int| is_format_of(ds, h, k), n);
}

/// Where the first streaming interface ends, and its number does not come again, the rest of the
/// descriptors does not matter: no other interface has a part in the result.
pub proof fn law_other_interfaces_do_not_matter(ds: Seq<Seq<u8>>, h: int, e: int)
    requires
        is_first_input_header(ds, h),
        h < e < ds.len(),
        is_interface(ds, e),
        forall|k: int|
            e <= k < ds.len() && #[trigger] is_interface(ds, k) ==> ds[k][2] != interface_number(
                ds,
                h,
            ),
    ensures
        streaming_interface(ds) == streaming_interface(ds.take(e)),
{
    let n = ds.len() as int;
    let cut = ds.take(e);
    assert forall|k: int| 0 <= k < e implies #[trigger] is_same_kind(ds, cut, k) by {
        lemma_is_same_kind(ds, cut, k);
    }
    assert forall|k: int| e < k < n implies !#[trigger] same_interface(ds, h, k) by {
        let p = |j: int| is_interface(ds, j);
        lemma_last_where(p, k);
        assert(p(e));
    }
    lemma_is_first(|k: int| is_input_header(ds, k), n, h);
    let header = |k: int| is_input_header(cut, k);
    assert forall|k: int| 0 <= k <= h implies #[trigger] header(k) == (k == h) by {
        assert(is_same_kind(ds, cut, k));
        let p = |k: int| is_input_header(ds, k);
        assert(p(k) == (k == h));
    }
    assert(is_first(header, e, h));
    lemma_is_first(header, e, h);
    lemma_version_same(ds, cut, h);
    assert(is_same_kind(ds, cut, h));
    let of_ds = |k: int| is_format_of(ds, h, k);
    let of_cut = |k: int| is_format_of(cut, h, k);
    assert forall|k: int| 0 <= k < e implies #[trigger] of_ds(k) == of_cut(k) by {
        assert(is_same_kind(ds, cut, k));
    }
    assert forall|k: int| e <= k < n implies !#[trigger] of_ds(k) by {
        if k > e {
            assert(!same_interface(ds, h, k));
        }
    }
    lemma_first_where_same(of_ds, of_cut, e, n);
    assert(input_header(ds, n) == Some(h));
    assert(input_header(cut, e) == Some(h));
    assert(format_of(ds, h, n) == format_of(cut, h, e));
    if let Some(f) = format_of(ds, h, n) {
        lemma_first_where(of_ds, n);
        lemma_first_where(of_cut, e);
        assert(same_interface(ds, h, f));
        assert(is_same_kind(ds, cut, f));
        let frame_ds = |k: int| is_frame_of(ds, f, k);
        let frame_cut = |k: int| is_frame_of(cut, f, k);
        assert forall|k: int| 0 <= k < e implies #[trigger] frame_ds(k) == frame_cut(k) by {
            assert(is_same_kind(ds, cut, k));
            lemma_same_format_cut(ds, cut, f, k);
        }
        assert forall|k: int| e <= k < n implies !#[trigger] frame_ds(k) by {
            if k > e {
                assert(!same_interface(ds, h, k));
            }
        }
        lemma_first_where_same(frame_ds, frame_cut, e, n);
        lemma_first_where(frame_cut, e);
        assert(frame_of(ds, f, n) == frame_of(cut, f, e));
        if let Some(g) = frame_of(ds, f, n) {
            assert(interface_at(ds, h, f, g) == interface_at(cut, h, f, g));
        }
    }
}

/// Descriptor `k` is the same, and belongs to the same interface, among `ds` and among `cut`.
spec fn is_same_kind(ds: Seq<Seq<u8>>, cut: Seq<Seq<u8>>, k: int) -> bool {
    &&& ds[k] == cut[k]
    &&& under_video(ds, k, VIDEO_STREAMING) == under_video(cut, k, VIDEO_STREAMING)
    &&& under_video(ds, k, VIDEO_CONTROL) == under_video(cut, k, VIDEO_CONTROL)
    &&& interface_number(ds, k) == interface_number(cut, k)
}

proof fn lemma_is_same_kind(ds: Seq<Seq<u8>>, cut: Seq<Seq<u8>>, k: int)
    requires
        0 <= k < cut.len() <= ds.len(),
        cut == ds.take(cut.len() as int),
    ensures
        is_same_kind(ds, cut, k),
{
    let p = |j: int| is_interface(ds, j);
    let q = |j: int| is_interface(cut, j);
    lemma_last_where_same(p, q, k);
    lemma_last_where(p, k);
}

proof fn lemma_version_same(ds: Seq<Seq<u8>>, cut: Seq<Seq<u8>>, h: int)
    requires
        0 <= h < cut.len() <= ds.len(),
        cut == ds.take(cut.len() as int),
    ensures
        uvc_version(ds, h) == uvc_version(cut, h),
{
    let p = |k: int| is_control_header(ds, k);
    let q = |k: int| is_control_header(cut, k);
    assert forall|k: int| 0 <= k < h implies #[trigger] p(k) == q(k) by {
        lemma_is_same_kind(ds, cut, k);
    }
    lemma_last_where_same(p, q, h);
    lemma_last_where(p, h);
}

proof fn lemma_same_format_cut(ds: Seq<Seq<u8>>, cut: Seq<Seq<u8>>, f: int, b: int)
    requires
        0 <= f < cut.len() <= ds.len(),
        b <= cut.len(),
        cut == ds.take(cut.len() as int),
    ensures
        same_format(ds, f, b) == same_format(cut, f, b),
{
    lemma_is_same_kind(ds, cut, f);
    assert forall|k: int| f < k < b implies #[trigger] is_format(ds, k) == is_format(cut, k)
        && same_interface(ds, f, k) == same_interface(cut, f, k) by {
        lemma_is_same_kind(ds, cut, k);
    }
    if same_format(ds, f, b) {
        assert forall|k: int| f < k < b && #[trigger] is_format(cut, k) implies !same_interface(
            cut,
            f,
            k,
        ) by {
            assert(is_format(ds, k));
        }
    }
}

/// Asking for a higher rate never selects a slower one.
pub proof fn law_selection_is_monotone(
    intervals: Seq<u32>,
    low_fps: u32,
    high_fps: u32,
    for_low: u32,
    for_high: u32,
)
    requires
        low_fps <= high_fps,
        is_selected(intervals, low_fps, for_low),
        is_selected(intervals, high_fps, for_high),
    ensures
        for_high <= for_low,
{
    let low: int = if low_fps == 0 {
        1
    } else {
        low_fps as int
    };
    let high: int = if high_fps == 0 {
        1
    } else {
        high_fps as int
    };
    assert forall|x: u32| #[trigger] is_fast_enough(x, high_fps) implies is_fast_enough(
        x,
        low_fps,
    ) by {
        assert(x * low <= x * high) by (nonlinear_arith)
            requires
                0 <= x,
                low <= high,
        ;
    }
}

/// Only one interval can be selected.
pub proof fn law_selection_is_unique(intervals: Seq<u32>, fps: u32, a: u32, b: u32)
    requires
        is_selected(intervals, fps, a),
        is_selected(intervals, fps, b),
    ensures
        a == b,
{
    law_selection_is_monotone(intervals, fps, fps, a, b);
    law_selection_is_monotone(intervals, fps, fps, b, a);
}

/// A descriptor that holds its own length is split off the bytes that it starts, and bytes that
/// hold no whole descriptor at their start give none.
pub proof fn law_descriptor_is_split_off(d: Seq<u8>, rest: Seq<u8>)
    ensures
        d.len() >= 2 && d[0] == d.len() ==> split_descriptors(d + rest) == seq![d]
            + split_descriptors(rest),
        rest.len() < 2 || rest[0] < 2 || rest[0] > rest.len() ==> split_descriptors(rest).len()
            == 0,
{
    if d.len() >= 2 && d[0] == d.len() {
        let bytes = d + rest;
        assert(bytes[0] == d[0]);
        assert(bytes.take(d.len() as int) =~= d);
        assert(bytes.skip(d.len() as int) =~= rest);
    }
}

/// What a descriptor is shows in its bytes, where `i` is the interface descriptor that it follows:
/// class-specific descriptors of video interfaces (class 14) are headers, formats and frames by
/// their subtype, at any length that reaches the fields that are read.
pub proof fn law_kinds_show_in_the_bytes(ds: Seq<Seq<u8>>, i: int, k: int)
    requires
        0 <= i < k,
        ds[i][1] == 0x04,
        forall|j: int| i < j < k ==> (#[trigger] ds[j])[1] != 0x04,
    ensures
        is_control_header(ds, k) <==> ds[i][5] == 14 && ds[i][6] == 1 && ds[k][1] == 0x24
            && ds[k][2] == 0x01 && ds[k].len() >= 5,
        is_input_header(ds, k) <==> ds[i][5] == 14 && ds[i][6] == 2 && ds[k][1] == 0x24
            && ds[k][2] == 0x01 && ds[k].len() >= 7,
        is_format(ds, k) <==> ds[i][5] == 14 && ds[i][6] == 2 && ds[k][1] == 0x24 && ds[k][2]
            == 0x04 && ds[k].len() >= 5,
        is_frame(ds, k) <==> ds[i][5] == 14 && ds[i][6] == 2 && ds[k][1] == 0x24 && ds[k][2]
            == 0x05 && ds[k].len() >= 26,
        interface_number(ds, k) == ds[i][2],
        readable_at(ds, k) <==> {
            &&& ds[k][1] == 0x04 ==> ds[k].len() >= 7
            &&& ds[k][1] == 0x24 && ds[i][5] == 14 && (ds[i][6] == 1 || ds[i][6] == 2)
                ==> ds[k].len() >= 3
        },
{
    let p = |j: int| is_interface(ds, j);
    lemma_last_where(p, k);
    assert(p(i));
    assert(last_where(p, k) == Some(i));
}

/// A descriptor that follows no interface descriptor is no header, format or frame.
pub proof fn law_no_kind_without_an_interface(ds: Seq<Seq<u8>>, k: int)
    requires
        forall|j: int| 0 <= j < k ==> (#[trigger] ds[j])[1] != 0x04,
    ensures
        !is_control_header(ds, k),
        !is_input_header(ds, k),
        !is_format(ds, k),
        !is_frame(ds, k),
        interface_number(ds, k) == 0,
        readable_at(ds, k) <==> (ds[k][1] == 0x04 ==> ds[k].len() >= 7),
{
    let p = |j: int| is_interface(ds, j);
    lemma_last_where(p, k);
    if let Some(j) = last_where(p, k) {
        assert(p(j));
        assert(ds[j][1] == 0x04);
    }
}

/// Descriptors can be read exactly if each one of them can.
pub proof fn law_readable_means_every_descriptor(ds: Seq<Seq<u8>>)
    ensures
        readable(ds) <==> forall|k: int| 0 <= k < ds.len() ==> #[trigger] readable_at(ds, k),
{
}

/// The interface that is found is read off the bytes. `owners` holds, for each descriptor, the
/// interface descriptor that it follows, or -1.
///
/// With `h` the first input header, `f` the first format with an index behind it, of an interface
/// of the same number, and `g` the first frame with an index behind that, of the same interface and
/// before its next format: the endpoint is in the header, and the intervals are those of the frame.
pub proof fn law_interface_is_read_off_the_bytes(
    ds: Seq<Seq<u8>>,
    owners: Seq<int>,
    h: int,
    f: int,
    g: int,
)
    requires
        owners.len() == ds.len(),
        0 <= h < f < g < ds.len(),
        forall|k: int| #![trigger owners[k]]
            0 <= k < ds.len() ==> -1 <= owners[k] < k && (owners[k] >= 0 ==> ds[owners[k]][1]
                == 0x04),
        forall|j: int, k: int| #![trigger ds[j], owners[k]]
            0 <= k < ds.len() && owners[k] < j < k ==> ds[j][1] != 0x04,
        ({
            let number = |k: int| if owners[k] >= 0 { ds[owners[k]][2] as int } else { 0 };
            let of_kind = |k: int, subtype: int, len: int|
                owners[k] >= 0 && ds[owners[k]][5] == 14 && ds[owners[k]][6] == 2 && ds[k][1]
                    == 0x24 && ds[k][2] == subtype && ds[k].len() >= len;
            &&& of_kind(h, 0x01, 7)
            &&& forall|k: int| #![trigger owners[k]] 0 <= k < h ==> !of_kind(k, 0x01, 7)
            &&& of_kind(f, 0x04, 5) && number(f) == number(h) && ds[f][3] != 0
            &&& forall|k: int| #![trigger owners[k]]
                h < k < f && of_kind(k, 0x04, 5) && number(k) == number(h) ==> ds[k][3] == 0
            &&& of_kind(g, 0x05, 26) && number(g) == number(h) && ds[g][3] != 0
            &&& forall|k: int| #![trigger owners[k]]
                f < k < g && number(k) == number(h) ==> !of_kind(k, 0x04, 5) && (of_kind(
                    k,
                    0x05,
                    26,
                ) ==> ds[k][3] == 0)
        }),
    ensures
        streaming_interface(ds) is Some <==> listed_intervals(ds[g]).len() > 0,
        streaming_interface(ds) matches Some(interface) ==> {
            &&& interface.interface_number == ds[owners[h]][2]
            &&& interface.endpoint_address == ds[h][6]
            &&& interface.format_index == ds[f][3]
            &&& interface.frame_index == ds[g][3]
            &&& interface.frame_intervals == listed_intervals(ds[g])
            &&& interface.uvc_version == uvc_version(ds, h)
        },
{
    let n = ds.len() as int;
    lemma_owners(ds, owners);
    let header = |k: int| is_input_header(ds, k);
    assert forall|k: int| 0 <= k < h implies !#[trigger] header(k) by {
        assert(owners[k] >= -1);
    }
    assert(owners[h] >= -1 && owners[f] >= -1 && owners[g] >= -1);
    lemma_is_first(header, n, h);
    let format = |k: int| is_format_of(ds, h, k);
    assert forall|k: int| 0 <= k < f implies !#[trigger] format(k) by {
        assert(owners[k] >= -1);
    }
    lemma_is_first(format, n, f);
    assert forall|k: int| f < k < g && #[trigger] is_format(ds, k) implies !same_interface(
        ds,
        f,
        k,
    ) by {
        assert(owners[k] >= -1);
    }
    let frame = |k: int| is_frame_of(ds, f, k);
    assert forall|k: int| 0 <= k < g implies !#[trigger] frame(k) by {
        assert(owners[k] >= -1);
    }
    lemma_is_first(frame, n, g);
}

/// No interface is found where there is no input header, where no format with an index of its
/// interface follows the first one, or where no frame with an index follows the format before the
/// next format of that interface. `owners` holds, for each descriptor, the interface descriptor
/// that it follows, or -1.
pub proof fn law_no_interface_without_its_parts(
    ds: Seq<Seq<u8>>,
    owners: Seq<int>,
    h: int,
    f: int,
)
    requires
        owners.len() == ds.len(),
        forall|k: int| #![trigger owners[k]]
            0 <= k < ds.len() ==> -1 <= owners[k] < k && (owners[k] >= 0 ==> ds[owners[k]][1]
                == 0x04),
        forall|j: int, k: int| #![trigger ds[j], owners[k]]
            0 <= k < ds.len() && owners[k] < j < k ==> ds[j][1] != 0x04,
        ({
            let number = |k: int| if owners[k] >= 0 { ds[owners[k]][2] as int } else { 0 };
            let of_kind = |k: int, subtype: int, len: int|
                owners[k] >= 0 && ds[owners[k]][5] == 14 && ds[owners[k]][6] == 2 && ds[k][1]
                    == 0x24 && ds[k][2] == subtype && ds[k].len() >= len;
            let first_header = 0 <= h < ds.len() && of_kind(h, 0x01, 7) && forall|k: int|
                #![trigger owners[k]]
                0 <= k < h ==> !of_kind(k, 0x01, 7);
            let first_format = h < f < ds.len() && of_kind(f, 0x04, 5) && number(f) == number(h)
                && ds[f][3] != 0 && forall|k: int| #![trigger owners[k]]
                h < k < f && of_kind(k, 0x04, 5) && number(k) == number(h) ==> ds[k][3] == 0;
            ||| forall|k: int| #![trigger owners[k]] 0 <= k < ds.len() ==> !of_kind(k, 0x01, 7)
            ||| first_header && forall|k: int| #![trigger owners[k]]
                h < k < ds.len() && of_kind(k, 0x04, 5) && number(k) == number(h) ==> ds[k][3] == 0
            ||| first_header && first_format && forall|k: int| #![trigger owners[k]]
                f < k < ds.len() && of_kind(k, 0x05, 26) && number(k) == number(h) && ds[k][3] != 0
                    ==> exists|j: int| #![trigger owners[j]]
                    f < j < k && of_kind(j, 0x04, 5) && number(j) == number(h)
        }),
    ensures
        streaming_interface(ds) is None,
{
    let n = ds.len() as int;
    lemma_owners(ds, owners);
    let header = |k: int| is_input_header(ds, k);
    lemma_first_where(header, n);
    if let Some(a) = input_header(ds, n) {
        assert(header(a));
        assert(owners[a] >= -1);
        assert(owners[h] >= -1);
        if a < h {
            assert(false);
        }
        if h < a {
            assert(!header(h));
        }
        assert(a == h);
        let format = |k: int| is_format_of(ds, h, k);
        lemma_first_where(format, n);
        if let Some(b) = format_of(ds, h, n) {
            assert(format(b));
            assert(owners[b] >= -1);
            assert(owners[f] >= -1);
            if f < b {
                assert(!format(f));
            }
            assert(b == f);
            let frame = |k: int| is_frame_of(ds, f, k);
            lemma_first_where(frame, n);
            if let Some(c) = frame_of(ds, f, n) {
                assert(frame(c));
                assert(owners[c] >= -1);
                let j = choose|j: int| #![trigger owners[j]]
                    f < j < c && is_format(ds, j) && same_interface(ds, f, j);
                assert(owners[j] >= -1);
                assert(is_format(ds, j));
            }
        }
    }
}

proof fn lemma_owners(ds: Seq<Seq<u8>>, owners: Seq<int>)
    requires
        owners.len() == ds.len(),
        forall|k: int| #![trigger owners[k]]
            0 <= k < ds.len() ==> -1 <= owners[k] < k && (owners[k] >= 0 ==> ds[owners[k]][1]
                == 0x04),
        forall|j: int, k: int| #![trigger ds[j], owners[k]]
            0 <= k < ds.len() && owners[k] < j < k ==> ds[j][1] != 0x04,
    ensures
        forall|k: int| #![trigger owners[k]]
            0 <= k < ds.len() ==> {
                let streaming = owners[k] >= 0 && ds[owners[k]][5] == 14 && ds[owners[k]][6] == 2
                    && ds[k][1] == 0x24;
                &&& is_input_header(ds, k) <==> streaming && ds[k][2] == 0x01 && ds[k].len() >= 7
                &&& is_format(ds, k) <==> streaming && ds[k][2] == 0x04 && ds[k].len() >= 5
                &&& is_frame(ds, k) <==> streaming && ds[k][2] == 0x05 && ds[k].len() >= 26
                &&& interface_number(ds, k) == if owners[k] >= 0 {
                    ds[owners[k]][2] as int
                } else {
                    0
                }
            },
{
    assert forall|k: int| #![trigger owners[k]] 0 <= k < ds.len() implies {
        let streaming = owners[k] >= 0 && ds[owners[k]][5] == 14 && ds[owners[k]][6] == 2
            && ds[k][1] == 0x24;
        &&& is_input_header(ds, k) <==> streaming && ds[k][2] == 0x01 && ds[k].len() >= 7
        &&& is_format(ds, k) <==> streaming && ds[k][2] == 0x04 && ds[k].len() >= 5
        &&& is_frame(ds, k) <==> streaming && ds[k][2] == 0x05 && ds[k].len() >= 26
        &&& interface_number(ds, k) == if owners[k] >= 0 {
            ds[owners[k]][2] as int
        } else {
            0
        }
    } by {
        if owners[k] >= 0 {
            law_kinds_show_in_the_bytes(ds, owners[k], k);
        } else {
            law_no_kind_without_an_interface(ds, k);
        }
    }
}

/// The version is that of the last video control header before the input header, low byte first, or
/// 1.0 where there is none.
pub proof fn law_version_is_read_off_the_bytes(ds: Seq<Seq<u8>>, h: int, c: int)
    ensures
        0 <= c < h && is_control_header(ds, c) && (forall|k: int|
            c < k < h ==> !#[trigger] is_control_header(ds, k)) ==> uvc_version(ds, h) == ds[c][3]
            + 256 * ds[c][4],
        (forall|k: int| 0 <= k < h ==> !#[trigger] is_control_header(ds, k)) ==> uvc_version(ds, h)
            == 0x0100,
{
    let p = |k: int| is_control_header(ds, k);
    lemma_last_where(p, h);
    if 0 <= c < h && is_control_header(ds, c) && (forall|k: int|
        c < k < h ==> !#[trigger] is_control_header(ds, k)) {
        assert(p(c));
        assert(last_where(p, h) == Some(c));
    }
    if forall|k: int| 0 <= k < h ==> !#[trigger] is_control_header(ds, k) {
        if let Some(k) = last_where(p, h) {
            assert(p(k));
        }
    }
}

/// Each field of four bytes behind byte 26 of a frame adds the interval that it holds, low byte
/// first, unless that is zero. What is left behind the last whole field adds nothing.
pub proof fn law_frame_lists_its_fields(d: Seq<u8>, field: Seq<u8>, tail: Seq<u8>)
    requires
        d.len() >= 26,
        (d.len() - 26) % 4 == 0,
        field.len() == 4,
        tail.len() < 4,
    ensures
        ({
            let interval = field[0] + 256 * field[1] + 65536 * field[2] + 16777216 * field[3];
            listed_intervals(d + field) == if interval == 0 {
                listed_intervals(d)
            } else {
                listed_intervals(d).push(interval as u32)
            }
        }),
        listed_intervals(d + tail) == listed_intervals(d),
        d.len() == 26 ==> listed_intervals(d).len() == 0,
{
    let positive = |interval: u32| interval > 0;
    let longer = d + field;
    let m = interval_fields(d).len() as int;
    assert(interval_fields(longer).len() == m + 1);
    assert(interval_fields(longer).drop_last() =~= interval_fields(d)) by {
        assert forall|i: int| 0 <= i < m implies interval_fields(longer)[i] == interval_fields(
            d,
        )[i] by {
            assert(le32(longer, INTERVALS_OFFSET + 4 * i) == le32(d, INTERVALS_OFFSET + 4 * i));
        }
    }
    assert(le32(longer, d.len() as int) == field[0] + 256 * field[1] + 65536 * field[2] + 16777216
        * field[3]);
    assert(interval_fields(longer).last() == le32(longer, d.len() as int) as u32);
    assert(listed_intervals(longer) == if positive(interval_fields(longer).last()) {
        interval_fields(longer).drop_last().filter(positive).push(interval_fields(longer).last())
    } else {
        interval_fields(longer).drop_last().filter(positive)
    }) by {
        reveal(Seq::filter);
    }
    assert(interval_fields(d + tail) =~= interval_fields(d)) by {
        assert forall|i: int| 0 <= i < m implies interval_fields(d + tail)[i] == interval_fields(
            d,
        )[i] by {
            assert(le32(d + tail, INTERVALS_OFFSET + 4 * i) == le32(d, INTERVALS_OFFSET + 4 * i));
        }
    }
    if d.len() == 26 {
        assert(interval_fields(d) =~= Seq::<u32>::empty());
        reveal(Seq::filter);
    }
}

/// Descriptor `j` says the same among `ds` and among `other`.
spec fn says_the_same(ds: Seq<Seq<u8>>, other: Seq<Seq<u8>>, j: int) -> bool {
    &&& is_input_header(ds, j) == is_input_header(other, j)
    &&& is_control_header(ds, j) == is_control_header(other, j)
    &&& is_format(ds, j) == is_format(other, j)
    &&& is_frame(ds, j) == is_frame(other, j)
    &&& interface_number(ds, j) == interface_number(other, j)
    &&& is_input_header(ds, j) ==> ds[j][6] == other[j][6]
    &&& is_control_header(ds, j) ==> ds[j][3] == other[j][3] && ds[j][4] == other[j][4]
    &&& is_format(ds, j) ==> ds[j][3] == other[j][3]
    &&& is_frame(ds, j) ==> ds[j] == other[j]
}

proof fn lemma_same_interface_found(ds: Seq<Seq<u8>>, other: Seq<Seq<u8>>)
    requires
        ds.len() == other.len(),
        forall|j: int| 0 <= j < ds.len() ==> #[trigger] says_the_same(ds, other, j),
    ensures
        streaming_interface(ds) == streaming_interface(other),
{
    let n = ds.len() as int;
    let header = |k: int| is_input_header(ds, k);
    let other_header = |k: int| is_input_header(other, k);
    assert forall|k: int| 0 <= k < n implies #[trigger] header(k) == other_header(k) by {
        assert(says_the_same(ds, other, k));
    }
    lemma_first_where_same(header, other_header, n, n);
    lemma_first_where(header, n);
    assert(input_header(ds, n) == input_header(other, n));
    if let Some(h) = input_header(ds, n) {
        assert(says_the_same(ds, other, h));
        let control = |k: int| is_control_header(ds, k);
        let other_control = |k: int| is_control_header(other, k);
        assert forall|k: int| 0 <= k < h implies #[trigger] control(k) == other_control(k) by {
            assert(says_the_same(ds, other, k));
        }
        lemma_last_where_same(control, other_control, h);
        lemma_last_where(control, h);
        if let Some(c) = last_where(control, h) {
            assert(says_the_same(ds, other, c));
        }
        assert(uvc_version(ds, h) == uvc_version(other, h));
        let format = |k: int| is_format_of(ds, h, k);
        let other_format = |k: int| is_format_of(other, h, k);
        assert forall|k: int| 0 <= k < n implies #[trigger] format(k) == other_format(k) by {
            assert(says_the_same(ds, other, k));
        }
        lemma_first_where_same(format, other_format, n, n);
        lemma_first_where(format, n);
        assert(format_of(ds, h, n) == format_of(other, h, n));
        if let Some(f) = format_of(ds, h, n) {
            assert(says_the_same(ds, other, f));
            let frame = |k: int| is_frame_of(ds, f, k);
            let other_frame = |k: int| is_frame_of(other, f, k);
            assert forall|k: int| 0 <= k < n implies #[trigger] frame(k) == other_frame(k) by {
                assert(says_the_same(ds, other, k));
                assert forall|j: int| f < j < k implies #[trigger] is_format(ds, j) == is_format(
                    other,
                    j,
                ) && same_interface(ds, f, j) == same_interface(other, f, j) by {
                    assert(says_the_same(ds, other, j));
                }
                assert forall|j: int| f < j < k implies #[trigger] is_format(other, j)
                    == is_format(ds, j) by {
                    assert(says_the_same(ds, other, j));
                }
                assert(same_format(ds, f, k) == same_format(other, f, k));
            }
            lemma_first_where_same(frame, other_frame, n, n);
            lemma_first_where(frame, n);
            assert(frame_of(ds, f, n) == frame_of(other, f, n));
            if let Some(g) = frame_of(ds, f, n) {
                assert(says_the_same(ds, other, g));
                assert(interface_at(ds, h, f, g) == interface_at(other, h, f, g));
            }
        }
    }
}

/// What stands in a header or a format behind the fields that are read does not matter, nor how
/// much of it there is: an input header is read up to its endpoint, a format up to its index, and a
/// control header (one that follows a video control interface `i`) up to the version.
pub proof fn law_bytes_behind_the_fields_do_not_matter(
    ds: Seq<Seq<u8>>,
    k: int,
    d: Seq<u8>,
    i: int,
)
    requires
        0 <= k < ds.len(),
        ds[k][1] == 0x24 && d[1] == 0x24,
        ds[k][2] == d[2] && ds[k][3] == d[3],
        ({
            ||| d[2] == 0x01 && ds[k].len() >= 7 && d.len() >= 7 && ds[k][4] == d[4] && ds[k][6]
                == d[6]
            ||| d[2] == 0x04 && ds[k].len() >= 5 && d.len() >= 5
            ||| d[2] == 0x01 && ds[k].len() >= 5 && d.len() >= 5 && ds[k][4] == d[4] && 0 <= i < k
                && ds[i][1] == 0x04 && ds[i][6] == 1 && forall|j: int|
                i < j < k ==> (#[trigger] ds[j])[1] != 0x04
        }),
    ensures
        streaming_interface(ds.update(k, d)) == streaming_interface(ds),
{
    let other = ds.update(k, d);
    assert forall|j: int| 0 <= j < ds.len() implies #[trigger] says_the_same(ds, other, j) by {
        let p = |a: int| is_interface(ds, a);
        let q = |a: int| is_interface(other, a);
        assert forall|a: int| 0 <= a < j implies #[trigger] p(a) == q(a) by {}
        lemma_last_where_same(p, q, j);
        lemma_last_where(p, j);
        if let Some(a) = last_where(p, j) {
            assert(p(a));
            assert(a != k);
            assert(ds[a] == other[a]);
        }
        if j == k && 0 <= i < k && ds[i][1] == 0x04 && (forall|a: int|
            i < a < k ==> (#[trigger] ds[a])[1] != 0x04) {
            assert(p(i));
        }
    }
    lemma_same_interface_found(ds, other);
}

/// The interval that is used is one of the camera's. It gives at least the frames per second that
/// were asked for, and no longer one does, if any gives them. Otherwise no shorter one is there.
pub proof fn law_selected_interval_serves_the_rate(intervals: Seq<u32>, fps: u32, interval: u32)
    requires
        is_selected(intervals, fps, interval),
    ensures
        intervals.contains(interval),
        forall|i: int|
            0 <= i < intervals.len() && #[trigger] intervals[i] * fps <= 10_000_000 && intervals[i]
                <= 10_000_000 ==> {
                &&& interval * fps <= 10_000_000 && interval <= 10_000_000
                &&& intervals[i] <= interval
            },
        interval * fps > 10_000_000 || interval > 10_000_000 ==> forall|i: int|
            0 <= i < intervals.len() ==> interval <= #[trigger] intervals[i],
{
    assert forall|x: u32| #[trigger] is_fast_enough(x, fps) <==> x * fps <= 10_000_000 && x
        <= 10_000_000 by {
        if fps == 0 {
            assert(x * 0 == 0);
        } else {
            assert(x * fps >= x) by (nonlinear_arith)
                requires
                    fps >= 1,
            ;
        }
    }
}

/// The model of an interface is what it holds.
pub proof fn law_interface_is_modelled_as_it_is(interface: StreamingInterface)
    ensures
        interface@.interface_number == interface.interface_number,
        interface@.endpoint_address == interface.endpoint_address,
        interface@.format_index == interface.format_index,
        interface@.frame_index == interface.frame_index,
        interface@.frame_intervals == interface.frame_intervals@,
        interface@.uvc_version == interface.uvc_version,
{
}

} // verus!
