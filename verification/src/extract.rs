use vstd::prelude::*;

use crate::common::error::AppError;
use crate::common::naming::{res_name_of, to_res_name};
use crate::common::text::{dec_chars, u64_to_string};
use crate::config::Config;
use crate::sensor_msgs::image::{
    image_at, image_bytes_ok, image_dims_ok, image_enc_chunk, image_tail_ok, image_text_ok, Image,
};
use crate::sensor_msgs::header::{header_bytes_ok, header_text_ok};
use crate::common::cursor::Cursor;
use crate::topic::{regex_valid, TopicName};
use vstd::string::StringExecFns;
use vstd::utf8::valid_utf8;

verus! {

/// One record handed in from the bag container: either the announcement
/// of a connection or a timestamped message payload on one.
#[derive(Debug)]
pub enum RawRecord {
    /// Metadata binding a numeric id to a topic name and a message type.
    Connection { id: u32, topic: String, message_type: String },
    /// A message on a connection: its time in nanoseconds and its payload.
    MessageData { conn_id: u32, time: u64, payload: Vec<u8> },
}

/// The export state of one tracked connection.
#[derive(Debug)]
pub struct TopicState {
    /// Number of messages observed on this connection since tracking began.
    pub counter: u32,
    /// Number of frames successfully exported.
    pub extracted: u32,
    /// Topic name.
    pub name: String,
    /// Filesystem-safe base name for the exported files.
    pub res_name: String,
    /// Whether export from this connection is finished.
    pub done: bool,
}

impl TopicState {
    /// The resource name is derived from the topic name, and no more
    /// frames have been exported than observed.
    pub open spec fn wf(&self) -> bool {
        self.res_name@ == res_name_of(self.name@) && self.extracted <= self.counter
    }

    /// Fresh state for a newly tracked topic.
    pub fn new(name: String) -> (s: TopicState)
        ensures
            s.counter == 0,
            s.extracted == 0,
            s.name@ == name@,
            s.res_name@ == res_name_of(name@),
            !s.done,
            s.wf(),
    {
        let res_name = to_res_name(&name);
        TopicState { counter: 0, extracted: 0, name, res_name, done: false }
    }
}

/// One frame ready to be persisted: where to write it, its dimensions,
/// and its pixel rows.
#[derive(Debug)]
pub struct ExportJob {
    /// Full path of the file to write, `{output_dir}/{res_name}_{index}.png`.
    pub path: String,
    /// Number of pixel columns.
    pub width: u32,
    /// Number of pixel rows.
    pub height: u32,
    /// The pixel buffer, three bytes per pixel.
    pub pixels: Vec<u8>,
}

/// What processing one record asks of the caller.
#[derive(Debug)]
pub enum Step {
    /// Nothing to do.
    Nothing,
    /// A matching connection is now followed for export.
    Found { conn_id: u32 },
    /// A topic matched a selector but carries another message type:
    /// the topic, its actual type, and the expected type.  Non-fatal.
    TypeMismatch { topic: String, found: String, expected: String },
    /// A frame was decoded and counted: write it out.
    Export(ExportJob),
}

/// `x + 1`, held at `u32::MAX` instead of overflowing.
pub open spec fn bump32(x: u32) -> u32 {
    if x < u32::MAX {
        (x + 1) as u32
    } else {
        x
    }
}

/// Nanoseconds elapsed between the anchor time and `time`; a message
/// dated before the anchor counts as zero elapsed time.
pub open spec fn elapsed_ns(anchor: u64, time: u64) -> int {
    if time >= anchor {
        time - anchor
    } else {
        0
    }
}

/// The anchor time after seeing a message at `time`: the first message
/// observed fixes it, every later one leaves it alone.
pub open spec fn anchor_of(anchor: Option<u64>, time: u64) -> u64 {
    match anchor {
        Some(t) => t,
        None => time,
    }
}

/// How one message on a tracked connection changes its state, and
/// whether the frame is an export candidate.  A `done` connection is
/// inert.  Otherwise the observation counter always advances, and the
/// frame is a candidate only when it lies inside the configured time
/// window, the maximum count has not been reached, and its 0-based
/// observed position is a multiple of the step.  The first frame past
/// the end time and the first frame past the maximum count turn the
/// connection `done` without being exported.
pub open spec fn msg_verdict(cfg: Config, st: TopicState, elapsed: int) -> (TopicState, bool) {
    if st.done {
        (st, false)
    } else {
        let b = TopicState { counter: bump32(st.counter), ..st };
        if elapsed < cfg.start_ns {
            (b, false)
        } else if cfg.end_ns matches Some(e) && elapsed > e {
            (TopicState { done: true, ..b }, false)
        } else if cfg.number matches Some(n) && st.extracted >= n {
            (TopicState { done: true, ..b }, false)
        } else if (b.counter as int - 1) % (cfg.step as int) != 0 {
            (b, false)
        } else {
            (b, true)
        }
    }
}

/// True when the payload decodes as an image.
pub open spec fn payload_image_ok(payload: Seq<u8>) -> bool {
    image_bytes_ok(payload, 0) && image_text_ok(payload, 0)
}

/// True when the decoded image's pixel matrix has exactly three bytes
/// per pixel.
pub open spec fn payload_pixels_ok(payload: Seq<u8>) -> bool {
    image_at(payload, 0).data.len() == image_at(payload, 0).width * image_at(payload, 0).height
        * 3
}

/// True when decoding the payload fails by running past the end of the
/// buffer.
pub open spec fn payload_oob(payload: Seq<u8>) -> bool {
    ||| !header_bytes_ok(payload, 0)
    ||| (header_bytes_ok(payload, 0) && header_text_ok(payload, 0) && !image_dims_ok(payload, 0))
    ||| (image_dims_ok(payload, 0) && header_text_ok(payload, 0) && valid_utf8(
        image_enc_chunk(payload, 0),
    ) && !image_tail_ok(payload, 0))
}

/// True when decoding the payload fails on a string field that is not
/// UTF-8.
pub open spec fn payload_bad_text(payload: Seq<u8>) -> bool {
    ||| (header_bytes_ok(payload, 0) && !header_text_ok(payload, 0))
    ||| (image_dims_ok(payload, 0) && header_text_ok(payload, 0) && !valid_utf8(
        image_enc_chunk(payload, 0),
    ))
}

/// The pixel buffer with the first and third channel of every
/// three-byte pixel swapped.
pub open spec fn swap_rb(s: Seq<u8>) -> Seq<u8> {
    Seq::new(
        s.len(),
        |i: int|
            if i % 3 == 0 && i + 2 < s.len() {
                s[i + 2]
            } else if i % 3 == 2 && i - 2 >= 0 {
                s[i - 2]
            } else {
                s[i]
            },
    )
}

/// The path of the `idx`-th exported frame of a topic:
/// `{dir}/{res_name}_{idx}.png`.
pub open spec fn save_path(dir: Seq<char>, res_name: Seq<char>, idx: int) -> Seq<char> {
    dir + seq!['/'] + res_name + seq!['_'] + dec_chars(idx) + seq!['.', 'p', 'n', 'g']
}

/// Swaps the first and third channel of every three-byte pixel in place.
fn invert_pixels(data: &mut Vec<u8>)
    requires
        old(data)@.len() % 3 == 0,
    ensures
        final(data)@ == swap_rb(old(data)@),
{
    let n = data.len() / 3;
    let ghost orig = data@;
    for k in 0..n
        invariant
            data@.len() == orig.len(),
            orig.len() % 3 == 0,
            orig.len() <= usize::MAX,
            n == orig.len() / 3,
            forall|j: int| 0 <= j < 3 * k ==> data@[j] == swap_rb(orig)[j],
            forall|j: int| 3 * k <= j < orig.len() ==> data@[j] == orig[j],
    {
        proof {
            vstd::arithmetic::div_mod::lemma_fundamental_div_mod(orig.len() as int, 3);
            assert(3 * k + 2 < orig.len());
        }
        let i = 3 * k;
        let a = data[i];
        let b = data[i + 2];
        data.set(i, b);
        data.set(i + 2, a);
    }
    proof {
        assert(data@ =~= swap_rb(orig));
    }
}

/// Builds `{dir}/{res_name}_{idx}.png`.
fn build_save_path(dir: &String, res_name: &String, idx: u64) -> (r: String)
    ensures
        r@ == save_path(dir@, res_name@, idx as int),
{
    let num = u64_to_string(idx);
    let mut p = String::new();
    p.append(dir.as_str());
    p.append("/");
    p.append(res_name.as_str());
    p.append("_");
    p.append(num.as_str());
    p.append(".png");
    proof {
        reveal_strlit("/");
        reveal_strlit("_");
        reveal_strlit(".png");
        assert("/"@ =~= seq!['/']);
        assert("_"@ =~= seq!['_']);
        assert(".png"@ =~= seq!['.', 'p', 'n', 'g']);
        assert(p@ =~= save_path(dir@, res_name@, idx as int));
    }
    p
}

/// Decodes one payload as an image, checks that the pixel matrix has
/// exactly three bytes per pixel, optionally swaps the first and third
/// colour channel, derives the file path from the topic's resource name
/// and the 1-based export index, and counts the frame as exported.
fn process_image(config: &Config, state: &mut TopicState, data: &[u8]) -> (r: Result<
    ExportJob,
    AppError,
>)
    ensures
        final(state).counter == old(state).counter,
        final(state).name == old(state).name,
        final(state).res_name == old(state).res_name,
        final(state).done == old(state).done,
        payload_image_ok(data@) && payload_pixels_ok(data@) ==> ({
            let img = image_at(data@, 0);
            &&& r matches Ok(job)
            &&& final(state).extracted == bump32(old(state).extracted)
            &&& job.width == img.width
            &&& job.height == img.height
            &&& job.pixels@ == (if config.invert_channels {
                swap_rb(img.data)
            } else {
                img.data
            })
            &&& job.path@ == save_path(
                config.output_dir@,
                old(state).res_name@,
                old(state).extracted + 1,
            )
        }),
        payload_image_ok(data@) && !payload_pixels_ok(data@) ==> (r matches Err(e)
            && e matches AppError::InvalidImageEncoding(s)
            && s@ == image_at(data@, 0).encoding
            && *final(state) == *old(state)),
        payload_oob(data@) ==> (r matches Err(e)
            && e matches AppError::OutOfBounds
            && *final(state) == *old(state)),
        payload_bad_text(data@) ==> (r matches Err(e)
            && e matches AppError::InvalidUtf8String
            && *final(state) == *old(state)),
{
    let mut cursor = Cursor::new(data);
    let image = match Image::from_reader(&mut cursor) {
        Ok(im) => im,
        Err(e) => {
            return Err(e);
        },
    };
    assert(payload_image_ok(data@));
    let ghost img = image_at(data@, 0);
    proof {
        assert((image.width as u128) * (image.height as u128) <= (u32::MAX as u128) * (
        u32::MAX as u128)) by (nonlinear_arith)
            requires
                image.width <= u32::MAX && image.height <= u32::MAX,
        ;
    }
    let need: u128 = (image.width as u128) * (image.height as u128) * 3;
    if (image.data.len() as u128) != need {
        return Err(AppError::InvalidImageEncoding(image.encoding));
    }
    let width = image.width;
    let height = image.height;
    let mut pixels = image.data;
    if config.invert_channels {
        proof {
            assert(pixels@.len() % 3 == 0) by (nonlinear_arith)
                requires
                    pixels@.len() == (width as int) * (height as int) * 3,
            ;
        }
        invert_pixels(&mut pixels);
    }
    let idx = (state.extracted as u64) + 1;
    let path = build_save_path(&config.output_dir, &state.res_name, idx);
    state.extracted = if state.extracted < u32::MAX {
        state.extracted + 1
    } else {
        state.extracted
    };
    Ok(ExportJob { path, width, height, pixels })
}

/// True when some selector matches `topic`.
pub open spec fn matches_any(sels: Seq<TopicName>, topic: Seq<char>) -> bool {
    exists|i: int| 0 <= i < sels.len() && (#[trigger] sels[i]).sel_matches(topic)
}

/// True when some tracked connection has the id `id`.
pub open spec fn has_id(states: Seq<(u32, TopicState)>, id: u32) -> bool {
    exists|i: int| 0 <= i < states.len() && (#[trigger] states[i]).0 == id
}

/// True when every tracked connection is done.
pub open spec fn all_done(states: Seq<(u32, TopicState)>) -> bool {
    forall|i: int| 0 <= i < states.len() ==> (#[trigger] states[i]).1.done
}

/// The per-topic export state machine: consumes the bag's record stream
/// one record at a time, tracks the connections whose topics match the
/// selectors, and decides which frames are decoded and exported.
#[derive(Debug)]
pub struct Engine {
    /// The configuration the run was started with.
    pub config: Config,
    /// One compiled selector per configured topic.
    pub selectors: Vec<TopicName>,
    /// The tracked connections, keyed by connection id.
    pub states: Vec<(u32, TopicState)>,
    /// The timestamp of the first message seen, once one has been.
    pub anchor: Option<u64>,
}

impl Engine {
    /// The engine's invariant: a valid configuration, one well-formed
    /// selector per configured topic in the configured mode, distinct
    /// connection ids, and well-formed per-topic states.
    pub open spec fn wf(&self) -> bool {
        &&& self.config.valid()
        &&& self.selectors@.len() == self.config.topics@.len()
        &&& forall|i: int|
            0 <= i < self.selectors@.len() ==> (#[trigger] self.selectors@[i]).wf()
        &&& forall|i: int|
            0 <= i < self.selectors@.len() ==> (#[trigger] self.selectors@[i]).is_regex
                == self.config.regex
        &&& forall|i: int|
            0 <= i < self.selectors@.len() ==> (#[trigger] self.selectors@[i]).plain@
                == self.config.topics@[i]@
        &&& forall|i: int, j: int|
            0 <= i < j < self.states@.len() ==> (#[trigger] self.states@[i]).0 != (
            #[trigger] self.states@[j]).0
        &&& forall|i: int| 0 <= i < self.states@.len() ==> (#[trigger] self.states@[i]).1.wf()
    }

    /// Builds an engine: validates the configuration and compiles one
    /// selector per topic.  Fails exactly when the configuration breaks
    /// one of its bounds or, in regex mode, when some pattern does not
    /// compile.
    pub fn new(config: Config) -> (r: Result<Engine, AppError>)
        ensures
            r is Ok <==> config.valid() && (config.regex ==> forall|i: int|
                0 <= i < config.topics@.len() ==> regex_valid(#[trigger] config.topics@[i]@)),
            r matches Ok(e) ==> e.wf() && e.config == config && e.states@.len() == 0
                && e.anchor is None,
            !config.valid() ==> (r matches Err(e) && !(e matches AppError::ArgsInvalidRegex(_))),
            config.valid() ==> (r matches Err(e) ==> (e matches AppError::ArgsInvalidRegex(p)
                && config.regex
                && exists|i: int|
                    0 <= i < config.topics@.len() && p@ == #[trigger] config.topics@[i]@
                        && !regex_valid(config.topics@[i]@))),
    {
        match config.validate() {
            Ok(()) => {},
            Err(e) => {
                return Err(e);
            },
        }
        let mut selectors: Vec<TopicName> = Vec::new();
        let n = config.topics.len();
        for i in 0..n
            invariant
                config.valid(),
                n == config.topics@.len(),
                selectors@.len() == i,
                forall|j: int| 0 <= j < i ==> (#[trigger] selectors@[j]).wf(),
                forall|j: int|
                    0 <= j < i ==> (#[trigger] selectors@[j]).is_regex == config.regex,
                forall|j: int|
                    0 <= j < i ==> (#[trigger] selectors@[j]).plain@ == config.topics@[j]@,
                forall|j: int|
                    0 <= j < i ==> (config.regex ==> regex_valid(#[trigger] config.topics@[j]@)),
        {
            let t = &config.topics[i];
            match TopicName::new(t.as_str(), config.regex) {
                Ok(tn) => {
                    selectors.push(tn);
                },
                Err(e) => {
                    return Err(e);
                },
            }
        }
        Ok(Engine { config, selectors, states: Vec::new(), anchor: None })
    }

    /// True when the whole run can stop early: every tracked connection
    /// is done and, in literal mode, every requested selector has found
    /// its connection.  In regex mode the number of matching connections
    /// cannot be known in advance, so the stream always runs to its end.
    pub fn should_stop(&self) -> (r: bool)
        ensures
            r == (all_done(self.states@) && self.states@.len() == self.selectors@.len()
                && !self.config.regex),
    {
        if self.config.regex {
            return false;
        }
        if self.states.len() != self.selectors.len() {
            return false;
        }
        let n = self.states.len();
        for i in 0..n
            invariant
                n == self.states@.len(),
                forall|j: int| 0 <= j < i ==> (#[trigger] self.states@[j]).1.done,
        {
            if !self.states[i].1.done {
                return false;
            }
        }
        true
    }

    /// True when some selector matches `topic`.
    fn topic_is_requested(&self, topic: &str) -> (r: bool)
        requires
            forall|i: int| 0 <= i < self.selectors@.len() ==> (#[trigger] self.selectors@[i]).wf(),
        ensures
            r == matches_any(self.selectors@, topic@),
    {
        let n = self.selectors.len();
        for i in 0..n
            invariant
                n == self.selectors@.len(),
                forall|j: int|
                    0 <= j < self.selectors@.len() ==> (#[trigger] self.selectors@[j]).wf(),
                forall|j: int| 0 <= j < i ==> !(#[trigger] self.selectors@[j]).sel_matches(topic@),
        {
            if self.selectors[i].matches(topic) {
                return true;
            }
        }
        false
    }

    /// The index of the tracked connection with id `id`, if any.
    fn find_index(&self, id: u32) -> (r: Option<usize>)
        ensures
            r matches Some(i) ==> i < self.states@.len() && self.states@[i as int].0 == id,
            r is Some <==> has_id(self.states@, id),
    {
        let n = self.states.len();
        for i in 0..n
            invariant
                n == self.states@.len(),
                forall|j: int| 0 <= j < i ==> (#[trigger] self.states@[j]).0 != id,
        {
            if self.states[i].0 == id {
                return Some(i);
            }
        }
        None
    }
}

/// The characters of the supported message type string.
pub open spec fn ros_type_chars() -> Seq<char> {
    "sensor_msgs/Image"@
}

/// What handling one connection announcement guarantees: a topic that
/// matches a selector and carries the supported image type is tracked
/// once, at its first announcement, with fresh state; a matching topic
/// of another type is reported as a mismatch and never tracked; every
/// other announcement changes nothing.
pub open spec fn conn_step_post(
    pre: Seq<(u32, TopicState)>,
    post: Seq<(u32, TopicState)>,
    sels: Seq<TopicName>,
    id: u32,
    topic: Seq<char>,
    tp: Seq<char>,
    step: Step,
) -> bool {
    let requested = matches_any(sels, topic);
    let desired = tp == ros_type_chars();
    let adds = requested && desired && !has_id(pre, id);
    &&& (adds ==> {
        &&& post.len() == pre.len() + 1
        &&& post.subrange(0, pre.len() as int) == pre
        &&& post.last().0 == id
        &&& post.last().1.counter == 0
        &&& post.last().1.extracted == 0
        &&& post.last().1.name@ == topic
        &&& post.last().1.res_name@ == res_name_of(topic)
        &&& !post.last().1.done
        &&& (step matches Step::Found { conn_id } && conn_id == id)
    })
    &&& (!adds ==> post == pre)
    &&& ((requested && !desired) ==> (step matches Step::TypeMismatch { topic: t, found: f, expected: x }
        && t@ == topic
        && f@ == tp
        && x@ == ros_type_chars()))
    &&& ((!requested || (desired && has_id(pre, id))) ==> (step matches Step::Nothing))
}

/// What handling one message on the tracked connection at index `i`
/// guarantees, given the anchor before the message arrived.
pub open spec fn msg_state_post(
    cfg: Config,
    pre: Seq<(u32, TopicState)>,
    post: Seq<(u32, TopicState)>,
    i: int,
    anchor0: Option<u64>,
    time: u64,
    payload: Seq<u8>,
    r: Result<Step, AppError>,
) -> bool {
    let st = pre[i].1;
    let cid = pre[i].0;
    let el = elapsed_ns(anchor_of(anchor0, time), time);
    let v = msg_verdict(cfg, st, el);
    &&& (!v.1 ==> (post == pre.update(i, (cid, v.0)) && (r matches Ok(s)
        && s matches Step::Nothing)))
    &&& ((v.1 && payload_oob(payload)) ==> (post == pre.update(i, (cid, v.0)) && (r matches Err(e)
        && e matches AppError::OutOfBounds)))
    &&& ((v.1 && payload_bad_text(payload)) ==> (post == pre.update(i, (cid, v.0)) && (
    r matches Err(e) && e matches AppError::InvalidUtf8String)))
    &&& ((v.1 && payload_image_ok(payload) && !payload_pixels_ok(payload)) ==> (post == pre.update(
        i,
        (cid, v.0),
    ) && (r matches Err(e)
        && e matches AppError::InvalidImageEncoding(enc)
        && enc@ == image_at(payload, 0).encoding)))
    &&& ((v.1 && payload_image_ok(payload) && payload_pixels_ok(payload)) ==> ({
        let img = image_at(payload, 0);
        &&& post == pre.update(i, (cid, TopicState { extracted: bump32(v.0.extracted), ..v.0 }))
        &&& (r matches Ok(s)
            && s matches Step::Export(job)
            && job.width == img.width
            && job.height == img.height
            && job.pixels@ == (if cfg.invert_channels {
                swap_rb(img.data)
            } else {
                img.data
            })
            && job.path@ == save_path(cfg.output_dir@, st.res_name@, st.extracted + 1))
    }))
}

/// What handling one message record guarantees: an unknown connection id
/// is inert, and a known one steps its state as [`msg_state_post`] says.
pub open spec fn msg_step_post(
    cfg: Config,
    pre: Seq<(u32, TopicState)>,
    post: Seq<(u32, TopicState)>,
    conn_id: u32,
    anchor0: Option<u64>,
    time: u64,
    payload: Seq<u8>,
    r: Result<Step, AppError>,
) -> bool {
    &&& (!has_id(pre, conn_id) ==> (post == pre && (r matches Ok(s) && s matches Step::Nothing)))
    &&& (forall|i: int|
        0 <= i < pre.len() && (#[trigger] pre[i]).0 == conn_id ==> msg_state_post(
            cfg,
            pre,
            post,
            i,
            anchor0,
            time,
            payload,
            r,
        ))
}

/// True when some tracked connection with at least one observed message
/// has a topic the selector matches.
pub open spec fn topic_found(states: Seq<(u32, TopicState)>, sel: TopicName) -> bool {
    exists|i: int|
        0 <= i < states.len() && (#[trigger] states[i]).1.counter > 0 && sel.sel_matches(
            states[i].1.name@,
        )
}

/// The reports owed after the stream ends: one "no messages" line per
/// selector, in selector order, for each selector that matched no topic
/// with messages.
pub open spec fn no_msg_views(
    sels: Seq<TopicName>,
    states: Seq<(u32, TopicState)>,
    regex: bool,
) -> Seq<crate::view::View>
    decreases sels.len(),
{
    if sels.len() == 0 {
        Seq::empty()
    } else {
        let rest = no_msg_views(sels.drop_last(), states, regex);
        if topic_found(states, sels.last()) {
            rest
        } else {
            rest.push(crate::view::View::NoMessages(sels.last().plain, regex))
        }
    }
}

impl Engine {
    /// Handles one connection announcement, as [`conn_step_post`] says.
    fn process_connection(&mut self, id: u32, topic: &String, message_type: &String) -> (step:
        Step)
        requires
            old(self).wf(),
        ensures
            final(self).wf(),
            final(self).config == old(self).config,
            final(self).selectors == old(self).selectors,
            final(self).anchor == old(self).anchor,
            conn_step_post(
                old(self).states@,
                final(self).states@,
                old(self).selectors@,
                id,
                topic@,
                message_type@,
                step,
            ),
    {
        let requested = self.topic_is_requested(topic.as_str());
        let desired = crate::common::text::str_eq(message_type.as_str(), Image::ros_type());
        if requested && desired {
            match self.find_index(id) {
                Some(_) => Step::Nothing,
                None => {
                    let st = TopicState::new(topic.clone());
                    self.states.push((id, st));
                    proof {
                        let pre = old(self).states@;
                        let post = self.states@;
                        assert(post.subrange(0, pre.len() as int) =~= pre);
                        assert forall|i: int, j: int|
                            0 <= i < j < post.len() implies (#[trigger] post[i]).0 != (
                        #[trigger] post[j]).0 by {
                            if j < pre.len() {
                                assert(pre[i].0 != pre[j].0);
                            } else {
                                assert(post[i].0 != id);
                            }
                        }
                    }
                    Step::Found { conn_id: id }
                },
            }
        } else if requested {
            Step::TypeMismatch {
                topic: topic.clone(),
                found: message_type.clone(),
                expected: String::from_str(Image::ros_type()),
            }
        } else {
            Step::Nothing
        }
    }

    /// Handles one message record, as [`msg_step_post`] says: the first
    /// message observed fixes the anchor time, a message on an unknown
    /// connection is inert, and a message on a tracked connection steps
    /// its state and possibly exports a frame.
    fn process_message(&mut self, conn_id: u32, time: u64, payload: &[u8]) -> (r: Result<
        Step,
        AppError,
    >)
        requires
            old(self).wf(),
        ensures
            final(self).wf(),
            final(self).config == old(self).config,
            final(self).selectors == old(self).selectors,
            final(self).anchor == Some(anchor_of(old(self).anchor, time)),
            msg_step_post(
                old(self).config,
                old(self).states@,
                final(self).states@,
                conn_id,
                old(self).anchor,
                time,
                payload@,
                r,
            ),
    {
        if self.anchor.is_none() {
            self.anchor = Some(time);
        }
        let anchor = match self.anchor {
            Some(t) => t,
            None => vstd::pervasive::unreached(),
        };
        let el: u64 = if time >= anchor {
            time - anchor
        } else {
            0
        };
        let ghost pre = self.states@;
        let idx = match self.find_index(conn_id) {
            Some(i) => i,
            None => {
                return Ok(Step::Nothing);
            },
        };
        proof {
            assert forall|i: int| 0 <= i < pre.len() && (#[trigger] pre[i]).0 == conn_id implies i
                == idx as int by {
                if i < idx as int {
                    assert(pre[i].0 != pre[idx as int].0);
                } else if i > idx as int {
                    assert(pre[idx as int].0 != pre[i].0);
                }
            }
        }
        let entry = self.states.remove(idx);
        let cid = entry.0;
        let mut st = entry.1;
        let ghost st0 = st;
        let ghost v = msg_verdict(self.config, st0, el as int);
        if st.done {
            self.states.insert(idx, (cid, st));
            proof {
                assert(self.states@ =~= pre.update(idx as int, (cid, v.0)));
            }
            return Ok(Step::Nothing);
        }
        st.counter = if st.counter < u32::MAX {
            st.counter + 1
        } else {
            st.counter
        };
        if el < self.config.start_ns {
            self.states.insert(idx, (cid, st));
            proof {
                assert(self.states@ =~= pre.update(idx as int, (cid, v.0)));
            }
            return Ok(Step::Nothing);
        }
        let mut past_end = false;
        if let Some(e) = self.config.end_ns {
            if el > e {
                past_end = true;
            }
        }
        if past_end {
            st.done = true;
            self.states.insert(idx, (cid, st));
            proof {
                assert(self.states@ =~= pre.update(idx as int, (cid, v.0)));
            }
            return Ok(Step::Nothing);
        }
        let mut at_max = false;
        if let Some(nmax) = self.config.number {
            if st.extracted >= nmax {
                at_max = true;
            }
        }
        if at_max {
            st.done = true;
            self.states.insert(idx, (cid, st));
            proof {
                assert(self.states@ =~= pre.update(idx as int, (cid, v.0)));
            }
            return Ok(Step::Nothing);
        }
        if (st.counter - 1) % self.config.step != 0 {
            self.states.insert(idx, (cid, st));
            proof {
                assert(self.states@ =~= pre.update(idx as int, (cid, v.0)));
            }
            return Ok(Step::Nothing);
        }
        assert(v.1 && v.0 == st);
        let r = process_image(&self.config, &mut st, payload);
        self.states.insert(idx, (cid, st));
        proof {
            if payload_image_ok(payload@) && payload_pixels_ok(payload@) {
                assert(self.states@ =~= pre.update(
                    idx as int,
                    (cid, TopicState { extracted: bump32(v.0.extracted), ..v.0 }),
                ));
            } else {
                assert(self.states@ =~= pre.update(idx as int, (cid, v.0)));
            }
        }
        match r {
            Ok(job) => Ok(Step::Export(job)),
            Err(e) => Err(e),
        }
    }

    /// Routes one record from the bag container: connection
    /// announcements go through [`conn_step_post`], message records
    /// through [`msg_step_post`].
    pub fn process_record(&mut self, record: &RawRecord) -> (r: Result<Step, AppError>)
        requires
            old(self).wf(),
        ensures
            final(self).wf(),
            final(self).config == old(self).config,
            final(self).selectors == old(self).selectors,
            record matches RawRecord::Connection { id, topic, message_type } ==> ({
                &&& final(self).anchor == old(self).anchor
                &&& (r matches Ok(step) && conn_step_post(
                    old(self).states@,
                    final(self).states@,
                    old(self).selectors@,
                    *id,
                    topic@,
                    message_type@,
                    step,
                ))
            }),
            record matches RawRecord::MessageData { conn_id, time, payload } ==> ({
                &&& final(self).anchor == Some(anchor_of(old(self).anchor, *time))
                &&& msg_step_post(
                    old(self).config,
                    old(self).states@,
                    final(self).states@,
                    *conn_id,
                    old(self).anchor,
                    *time,
                    payload@,
                    r,
                )
            }),
    {
        match record {
            RawRecord::Connection { id, topic, message_type } => {
                Ok(self.process_connection(*id, topic, message_type))
            },
            RawRecord::MessageData { conn_id, time, payload } => {
                self.process_message(*conn_id, *time, payload.as_slice())
            },
        }
    }

    /// True when the selector matches the topic of some tracked
    /// connection that has observed at least one message.
    fn topic_has_messages(&self, sel: &TopicName) -> (r: bool)
        requires
            sel.wf(),
        ensures
            r == topic_found(self.states@, *sel),
    {
        let n = self.states.len();
        for i in 0..n
            invariant
                n == self.states@.len(),
                sel.wf(),
                forall|j: int|
                    0 <= j < i ==> !((#[trigger] self.states@[j]).1.counter > 0
                        && sel.sel_matches(self.states@[j].1.name@)),
        {
            if self.states[i].1.counter > 0 && sel.matches(self.states[i].1.name.as_str()) {
                return true;
            }
        }
        false
    }

    /// After the stream has ended: reports, in selector order, every
    /// selector that matched no topic with messages, as
    /// [`no_msg_views`] says.
    pub fn check_for_empty_topics(&self) -> (r: Vec<crate::view::View>)
        requires
            self.wf(),
        ensures
            r@ == no_msg_views(self.selectors@, self.states@, self.config.regex),
    {
        let mut out: Vec<crate::view::View> = Vec::new();
        let n = self.selectors.len();
        for i in 0..n
            invariant
                n == self.selectors@.len(),
                self.wf(),
                out@ == no_msg_views(
                    self.selectors@.subrange(0, i as int),
                    self.states@,
                    self.config.regex,
                ),
        {
            let sel = &self.selectors[i];
            let found = self.topic_has_messages(sel);
            if !found {
                out.push(crate::view::View::NoMessages(sel.plain.clone(), self.config.regex));
            }
            proof {
                let cur = self.selectors@.subrange(0, i + 1);
                assert(cur.drop_last() =~= self.selectors@.subrange(0, i as int));
                assert(cur.last() == self.selectors@[i as int]);
            }
        }
        proof {
            assert(self.selectors@.subrange(0, self.selectors@.len() as int) =~= self.selectors@);
        }
        out
    }
}

/// With step `S`, a frame is an export candidate only at observed
/// positions `0, S, 2S, …` (0-based since tracking began); and no
/// message changes `extracted` by itself — only a successful export
/// does.
pub proof fn lemma_step_positions(cfg: Config, st: TopicState, elapsed: int)
    ensures
        msg_verdict(cfg, st, elapsed).1 ==> (msg_verdict(cfg, st, elapsed).0.counter as int - 1) % (
        cfg.step as int) == 0,
        msg_verdict(cfg, st, elapsed).0.extracted == st.extracted,
{
}

/// Once `extracted` has reached the configured maximum, no further
/// export occurs, and the connection becomes done at the next frame
/// that lies inside the time window.
pub proof fn lemma_max_count(cfg: Config, st: TopicState, elapsed: int)
    requires
        cfg.number matches Some(n) && st.extracted >= n,
    ensures
        !msg_verdict(cfg, st, elapsed).1,
        !st.done && elapsed >= cfg.start_ns && (cfg.end_ns matches Some(e) ==> elapsed <= e)
            ==> msg_verdict(cfg, st, elapsed).0.done,
{
}

/// Done is terminal: a done connection is inert — its state never
/// changes again and it never exports.
pub proof fn lemma_done_monotonic(cfg: Config, st: TopicState, elapsed: int)
    requires
        st.done,
    ensures
        msg_verdict(cfg, st, elapsed).0 == st,
        !msg_verdict(cfg, st, elapsed).1,
{
}

/// A message before the start of the time window is skipped without
/// touching `done` or `extracted`; a message after the configured end
/// turns the connection done and is itself never exported.
pub proof fn lemma_time_window(cfg: Config, st: TopicState, elapsed: int)
    requires
        !st.done,
    ensures
        elapsed < cfg.start_ns ==> ({
            let v = msg_verdict(cfg, st, elapsed);
            &&& v.0.done == st.done
            &&& v.0.extracted == st.extracted
            &&& !v.1
        }),
        (cfg.end_ns matches Some(e) && elapsed > e && elapsed >= cfg.start_ns) ==> ({
            let v = msg_verdict(cfg, st, elapsed);
            &&& v.0.done
            &&& !v.1
        }),
{
}

/// A connection matching a selector by topic but not by type never
/// becomes tracked: the states are unchanged — so its `extracted` count
/// can never leave zero — and the step is the one diagnostic naming the
/// topic, its actual type, and the expected type.
pub proof fn lemma_type_mismatch(
    pre: Seq<(u32, TopicState)>,
    post: Seq<(u32, TopicState)>,
    sels: Seq<TopicName>,
    id: u32,
    topic: Seq<char>,
    tp: Seq<char>,
    step: Step,
)
    requires
        conn_step_post(pre, post, sels, id, topic, tp, step),
        matches_any(sels, topic),
        tp != ros_type_chars(),
    ensures
        post == pre,
        step matches Step::TypeMismatch { topic: t, found: f, expected: x } && t@ == topic && f@
            == tp && x@ == ros_type_chars(),
{
}

/// Selectors attach to every connection whose topic they match, not
/// just the first: any announcement of a fresh connection id whose
/// topic matches some selector and whose type is the supported one adds
/// a tracked state for it.
pub proof fn lemma_attaches_every_match(
    pre: Seq<(u32, TopicState)>,
    post: Seq<(u32, TopicState)>,
    sels: Seq<TopicName>,
    id: u32,
    topic: Seq<char>,
    tp: Seq<char>,
    step: Step,
)
    requires
        conn_step_post(pre, post, sels, id, topic, tp, step),
        matches_any(sels, topic),
        tp == ros_type_chars(),
        !has_id(pre, id),
    ensures
        post.len() == pre.len() + 1,
        post.last().0 == id,
        post.last().1.name@ == topic,
        post.last().1.counter == 0,
        post.last().1.extracted == 0,
        !post.last().1.done,
{
}

} // verus!
