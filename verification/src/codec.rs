//! Image codecs and the decoder and encoder sessions that are created
//! from them. The pixel work itself is done elsewhere: a session is told
//! what came of each step and keeps the protocol state.
use crate::array::{Array, ArrayType};
use crate::error::Error;
use crate::handle::Handle;
use crate::variant::ImplType;
use vstd::prelude::*;
use vstd::std_specs::cmp::PartialEqSpecImpl;
use vstd::string::{StrSliceExecFns, StringSliceAdditionalSpecFns};
use vstd::utf8::{encode_utf8, encode_utf8_decode_utf8};

verus! {

/// A set of image codec feature bits.
#[derive(Clone, Copy, Debug, PartialEq, Eq, Structural)]
pub struct ImageCodecFeatures {
    bits: u32,
}

/// Image codec supports reading images (can create an [`ImageDecoder`]).
pub const FEATURE_READ: u32 = 0x0000_0001;

/// Image codec supports writing images (can create an [`ImageEncoder`]).
pub const FEATURE_WRITE: u32 = 0x0000_0002;

/// Image codec supports lossless compression.
pub const FEATURE_LOSSLESS: u32 = 0x0000_0004;

/// Image codec supports lossy compression.
pub const FEATURE_LOSSY: u32 = 0x0000_0008;

/// Image codec supports writing multiple frames.
pub const FEATURE_MULTI_FRAME: u32 = 0x0000_0010;

/// Image codec supports IPTC metadata.
pub const FEATURE_IPTC: u32 = 0x1000_0000;

/// Image codec supports EXIF metadata.
pub const FEATURE_EXIF: u32 = 0x2000_0000;

/// Image codec supports XMP metadata.
pub const FEATURE_XMP: u32 = 0x4000_0000;

/// Every bit that stands for a feature.
pub const FEATURE_ALL: u32 = 0x7000_001f;

impl ImageCodecFeatures {
    /// The bits of the set.
    pub closed spec fn spec_bits(self) -> u32 {
        self.bits
    }

    /// True when every bit of `flags` is in the set.
    pub open spec fn spec_contains(self, flags: u32) -> bool {
        self.spec_bits() & flags == flags
    }

    /// The set of the feature bits among `bits`; bits that stand for no
    /// feature are dropped.
    pub fn from_bits_truncate(bits: u32) -> (set: Self)
        ensures
            set.spec_bits() == bits & FEATURE_ALL,
    {
        ImageCodecFeatures { bits: bits & FEATURE_ALL }
    }

    /// The empty set.
    pub closed spec fn spec_empty() -> Self {
        ImageCodecFeatures { bits: 0 }
    }

    /// The empty set has no bit, and holds no feature.
    pub proof fn lemma_empty_holds_nothing(flags: u32)
        ensures
            Self::spec_empty().spec_bits() == 0,
            flags != 0 ==> !Self::spec_empty().spec_contains(flags),
    {
        assert(flags != 0 ==> 0u32 & flags != flags) by (bit_vector);
    }

    /// The empty set.
    pub fn empty() -> (set: Self)
        ensures
            set == Self::spec_empty(),
            set.spec_bits() == 0,
    {
        ImageCodecFeatures { bits: 0 }
    }

    pub fn bits(self) -> (bits: u32)
        ensures
            bits == self.spec_bits(),
    {
        self.bits
    }

    pub fn contains(self, flags: u32) -> (r: bool)
        ensures
            r == self.spec_contains(flags),
    {
        self.bits & flags == flags
    }
}

/// What the header of an image stream says about the image.
#[derive(Clone, Copy, Debug, PartialEq, Eq, Structural)]
pub struct ImageInfo {
    pub width: i32,
    pub height: i32,
    pub flags: u32,
    pub depth: u16,
    pub plane_count: u16,
    pub frame_count: u64,
}

impl ArrayType for ImageInfo {
    open spec fn spec_impl_type() -> ImplType {
        ImplType::ArrayStruct24
    }

    open spec fn spec_same(&self, other: &Self) -> bool {
        *self == *other
    }

    open spec fn same_is_by_value() -> bool {
        true
    }

    proof fn lemma_shape_is_array() {
    }

    fn impl_type() -> (shape: ImplType) {
        ImplType::ArrayStruct24
    }

    fn retain(&self) -> (copy: Self) {
        *self
    }

    fn same(&self, other: &Self) -> (r: bool) {
        *self == *other
    }
}

/// Where a session stands in its protocol.
#[derive(Clone, Copy, Debug, PartialEq, Eq, Structural)]
pub enum SessionPhase {
    /// Nothing has been read or written yet.
    Created,
    /// At least one step has succeeded and none has failed since.
    Streaming,
    /// The stream has no more frames.
    Exhausted,
    /// A step has failed.
    Errored,
}

/// What a session asks of whoever takes its steps, before a step.
#[derive(Clone, Copy, Debug, PartialEq, Eq, Structural)]
pub enum SessionAction {
    /// The step is to be taken and what comes of it handed to the
    /// session.
    Proceed,
    /// The step is not to be taken: the session carries this failure, and
    /// the failure is what the step comes to.
    Report(Error),
}

/// The protocol state of a decoder or an encoder.
#[derive(Clone, Copy, Debug, PartialEq, Eq, Structural)]
pub struct Session {
    /// The failure of the last step that failed, until a restart.
    pub last_error: Option<Error>,
    /// The index of the frame that comes next.
    pub frame_index: u64,
    /// The position in the buffer that was handed over last.
    pub buffer_index: usize,
}

impl Session {
    /// The state of a fresh session, and of one that was restarted.
    pub open spec fn spec_initial() -> Session {
        Session { last_error: None, frame_index: 0, buffer_index: 0 }
    }

    /// The state after a restart, whatever it was before.
    pub open spec fn restarted(self) -> Session {
        Self::spec_initial()
    }

    pub open spec fn spec_phase(self) -> SessionPhase {
        match self.last_error {
            Some(Error::NoMoreData) => SessionPhase::Exhausted,
            Some(_) => SessionPhase::Errored,
            None => if self.frame_index == 0 && self.buffer_index == 0 {
                SessionPhase::Created
            } else {
                SessionPhase::Streaming
            },
        }
    }

    /// The state after a step that moves no frame, such as reading a
    /// header. `outcome` is what came of the step: the position it
    /// reached, or why it failed. A session that carries a failure
    /// ignores the outcome.
    pub open spec fn after_header(self, outcome: Result<usize, Error>) -> Session {
        match (self.last_error, outcome) {
            (Some(_), _) => self,
            (None, Ok(position)) => Session { buffer_index: position, ..self },
            (None, Err(e)) => Session { last_error: Some(e), ..self },
        }
    }

    /// The state after a step that reads or writes one frame. A session
    /// whose frame index cannot advance is exhausted.
    pub open spec fn after_frame(self, outcome: Result<usize, Error>) -> Session {
        match (self.last_error, outcome) {
            (Some(_), _) => self,
            (None, Ok(position)) => if self.frame_index == u64::MAX {
                Session { last_error: Some(Error::NoMoreData), ..self }
            } else {
                Session {
                    frame_index: (self.frame_index + 1) as u64,
                    buffer_index: position,
                    ..self
                }
            },
            (None, Err(e)) => Session { last_error: Some(e), ..self },
        }
    }

    /// What a step reports to its caller: the failure that the session
    /// carried before the step or took from it, or success.
    pub open spec fn report(self) -> Result<(), Error> {
        match self.last_error {
            Some(e) => Err(e),
            None => Ok(()),
        }
    }

    /// A session that carries a failure takes no step until it is
    /// restarted.
    pub open spec fn spec_next_action(self) -> SessionAction {
        match self.last_error {
            Some(e) => SessionAction::Report(e),
            None => SessionAction::Proceed,
        }
    }

    pub fn next_action(&self) -> (action: SessionAction)
        ensures
            action == self.spec_next_action(),
    {
        match self.last_error {
            Some(e) => SessionAction::Report(e),
            None => SessionAction::Proceed,
        }
    }

    pub fn initial() -> (s: Session)
        ensures
            s == Self::spec_initial(),
    {
        Session { last_error: None, frame_index: 0, buffer_index: 0 }
    }

    pub fn phase(&self) -> (p: SessionPhase)
        ensures
            p == self.spec_phase(),
    {
        match self.last_error {
            Some(Error::NoMoreData) => SessionPhase::Exhausted,
            Some(_) => SessionPhase::Errored,
            None => if self.frame_index == 0 && self.buffer_index == 0 {
                SessionPhase::Created
            } else {
                SessionPhase::Streaming
            },
        }
    }

    /// Takes in what came of a step that moves no frame.
    pub fn header_done(&mut self, outcome: Result<usize, Error>)
        ensures
            *final(self) == old(self).after_header(outcome),
    {
        if self.last_error.is_none() {
            match outcome {
                Ok(position) => {
                    self.buffer_index = position;
                },
                Err(e) => {
                    self.last_error = Some(e);
                },
            }
        }
    }

    /// Takes in what came of a step that reads or writes one frame.
    pub fn frame_done(&mut self, outcome: Result<usize, Error>)
        ensures
            *final(self) == old(self).after_frame(outcome),
    {
        if self.last_error.is_none() {
            match outcome {
                Ok(position) => {
                    if self.frame_index == u64::MAX {
                        self.last_error = Some(Error::NoMoreData);
                    } else {
                        self.frame_index = self.frame_index + 1;
                        self.buffer_index = position;
                    }
                },
                Err(e) => {
                    self.last_error = Some(e);
                },
            }
        }
    }
}

/// Restarting twice is restarting once: the frame index and the buffer
/// position are zero and no failure is carried after the first restart
/// and after the second.
pub proof fn lemma_restart_idempotent(s: Session)
    ensures
        s.restarted().restarted() == s.restarted(),
        s.restarted().frame_index == 0,
        s.restarted().buffer_index == 0,
        s.restarted().last_error is None,
        s.restarted().spec_phase() == SessionPhase::Created,
{
}

/// A session that carries a failure stays as it is, whatever the steps
/// that follow report, until it is restarted.
pub proof fn lemma_failure_is_sticky(s: Session, outcome: Result<usize, Error>)
    requires
        s.last_error is Some,
    ensures
        s.after_header(outcome) == s,
        s.after_frame(outcome) == s,
{
}

/// A failed frame leaves the frame index where it was; a frame that
/// succeeds advances it by one.
pub proof fn lemma_frame_index_advances(s: Session, outcome: Result<usize, Error>)
    ensures
        outcome is Err ==> s.after_frame(outcome).frame_index == s.frame_index,
        s.last_error is None && outcome is Ok && s.frame_index < u64::MAX ==> s.after_frame(
            outcome,
        ).frame_index == s.frame_index + 1,
{
}

/// What a codec is: its names and what it can do.
#[derive(Debug)]
struct CodecImpl {
    name: String,
    vendor: String,
    mime_type: String,
    extensions: String,
    features: ImageCodecFeatures,
}

/// The value of a codec: the texts that name it and its features.
pub struct CodecInfo {
    pub name: Seq<char>,
    pub vendor: Seq<char>,
    pub mime_type: Seq<char>,
    /// The file extensions, separated by `|`.
    pub extensions: Seq<char>,
    pub features: ImageCodecFeatures,
}

/// Provides a unified interface for inspecting image data and creating
/// image decoders and encoders.
#[derive(Debug)]
pub struct ImageCodec {
    core: Handle<CodecImpl>,
}

impl View for ImageCodec {
    type V = CodecInfo;

    closed spec fn view(&self) -> CodecInfo {
        match self.core@ {
            Some(body) => CodecInfo {
                name: body.name@,
                vendor: body.vendor@,
                mime_type: body.mime_type@,
                extensions: body.extensions@,
                features: body.features,
            },
            None => Self::spec_none(),
        }
    }
}

/// The index of the first `sep` in `s` at or after `from`, and the length
/// of `s` if there is none.
pub open spec fn spec_next_separator(s: Seq<char>, sep: char, from: int) -> int
    decreases s.len() - from,
{
    if from < 0 || from >= s.len() {
        s.len() as int
    } else if s[from] == sep {
        from
    } else {
        spec_next_separator(s, sep, from + 1)
    }
}

/// The pieces of `s` from `from` on that `sep` separates. There is always
/// at least one piece; a piece may be empty.
pub open spec fn spec_split_from(s: Seq<char>, sep: char, from: int) -> Seq<Seq<char>>
    decreases s.len() - from,
{
    let end = spec_next_separator(s, sep, from);
    if from < 0 || from > s.len() || end < from {
        Seq::empty()
    } else if end >= s.len() {
        seq![s.subrange(from, s.len() as int)]
    } else {
        seq![s.subrange(from, end)] + spec_split_from(s, sep, end + 1)
    }
}

/// The first separator at or after `from` is not before `from`, and no
/// separator stands between the two.
pub proof fn lemma_next_separator(s: Seq<char>, sep: char, from: int)
    requires
        0 <= from <= s.len(),
    ensures
        from <= spec_next_separator(s, sep, from) <= s.len(),
        forall|k: int| from <= k < spec_next_separator(s, sep, from) ==> s[k] != sep,
        spec_next_separator(s, sep, from) < s.len() ==> s[spec_next_separator(s, sep, from)]
            == sep,
    decreases s.len() - from,
{
    if from < s.len() && s[from] != sep {
        lemma_next_separator(s, sep, from + 1);
    }
}

impl ImageCodec {
    /// The value of the codec that knows no format.
    pub open spec fn spec_none() -> CodecInfo {
        CodecInfo {
            name: Seq::empty(),
            vendor: Seq::empty(),
            mime_type: Seq::empty(),
            extensions: Seq::empty(),
            features: ImageCodecFeatures::spec_empty(),
        }
    }

    /// The codec that knows no format. Nothing is allocated.
    pub fn none() -> (codec: Self)
        ensures
            codec@ == Self::spec_none(),
            codec@.features.spec_bits() == 0,
            !codec.has_impl(),
    {
        ImageCodec { core: Handle::none() }
    }

    /// A codec with the given names and features.
    pub fn new(
        name: &str,
        vendor: &str,
        mime_type: &str,
        extensions: &str,
        features: ImageCodecFeatures,
    ) -> (codec: Self)
        ensures
            codec@ == (CodecInfo {
                name: name@,
                vendor: vendor@,
                mime_type: mime_type@,
                extensions: extensions@,
                features,
            }),
            codec.has_impl(),
    {
        ImageCodec {
            core: Handle::new(
                CodecImpl {
                    name: name.to_owned(),
                    vendor: vendor.to_owned(),
                    mime_type: mime_type.to_owned(),
                    extensions: extensions.to_owned(),
                    features,
                },
            ),
        }
    }

    /// The codec's name.
    pub fn name(&self) -> (text: &str)
        ensures
            text@ == self@.name,
    {
        match self.core.get() {
            Some(body) => body.name.as_str(),
            None => {
                proof {
                    reveal_strlit("");
                }
                assert(""@ =~= Seq::<char>::empty());
                ""
            },
        }
    }

    /// The codec's vendor.
    pub fn vendor(&self) -> (text: &str)
        ensures
            text@ == self@.vendor,
    {
        match self.core.get() {
            Some(body) => body.vendor.as_str(),
            None => {
                proof {
                    reveal_strlit("");
                }
                assert(""@ =~= Seq::<char>::empty());
                ""
            },
        }
    }

    /// The codec's mime-type.
    pub fn mime_type(&self) -> (text: &str)
        ensures
            text@ == self@.mime_type,
    {
        match self.core.get() {
            Some(body) => body.mime_type.as_str(),
            None => {
                proof {
                    reveal_strlit("");
                }
                assert(""@ =~= Seq::<char>::empty());
                ""
            },
        }
    }

    /// The codec's file extensions as one text, separated by `|`.
    pub fn extension_list(&self) -> (text: &str)
        ensures
            text@ == self@.extensions,
    {
        match self.core.get() {
            Some(body) => body.extensions.as_str(),
            None => {
                proof {
                    reveal_strlit("");
                }
                assert(""@ =~= Seq::<char>::empty());
                ""
            },
        }
    }

    /// The codec's file extensions.
    pub fn extensions(&self) -> (pieces: Vec<&str>)
        ensures
            pieces@.len() == spec_split_from(self@.extensions, '|', 0).len(),
            forall|i: int|
                0 <= i < pieces@.len() ==> (#[trigger] pieces@[i])@ == spec_split_from(
                    self@.extensions,
                    '|',
                    0,
                )[i],
    {
        let text = self.extension_list();
        let n = text.unicode_len();
        let mut pieces: Vec<&str> = Vec::new();
        let ghost mut done: Seq<Seq<char>> = Seq::empty();
        let mut start: usize = 0;
        let mut i: usize = 0;
        while i < n
            invariant
                n == text@.len(),
                start <= i <= n,
                spec_next_separator(text@, '|', start as int) == spec_next_separator(
                    text@,
                    '|',
                    i as int,
                ),
                spec_split_from(text@, '|', 0) == done + spec_split_from(text@, '|', start as int),
                done.len() == pieces@.len(),
                forall|k: int| 0 <= k < pieces@.len() ==> (#[trigger] pieces@[k])@ == done[k],
            decreases n - i,
        {
            proof {
                lemma_next_separator(text@, '|', start as int);
                lemma_next_separator(text@, '|', i as int + 1);
            }
            if text.get_char(i) == '|' {
                let piece = text.substring_char(start, i);
                proof {
                    let rest = spec_split_from(text@, '|', i as int + 1);
                    assert(spec_split_from(text@, '|', start as int) =~= seq![piece@] + rest);
                    assert(done + (seq![piece@] + rest) =~= done.push(piece@) + rest);
                    done = done.push(piece@);
                }
                pieces.push(piece);
                start = i + 1;
            }
            i = i + 1;
        }
        let last = text.substring_char(start, n);
        proof {
            lemma_next_separator(text@, '|', start as int);
            assert(spec_split_from(text@, '|', start as int) =~= seq![last@]);
            assert(done + seq![last@] =~= done.push(last@));
            done = done.push(last@);
        }
        pieces.push(last);
        pieces
    }

    /// The codec's features.
    pub fn features(&self) -> (set: ImageCodecFeatures)
        ensures
            set == self@.features,
    {
        match self.core.get() {
            Some(body) => body.features,
            None => ImageCodecFeatures::empty(),
        }
    }
}

impl Clone for ImageCodec {
    /// A second handle to the same codec.
    fn clone(&self) -> (copy: Self)
        ensures
            copy == *self,
            copy@ == self@,
    {
        ImageCodec { core: self.core.clone_shared() }
    }
}

impl ImageCodec {
    /// True when the handle refers to a codec allocation; false for the
    /// codec that knows no format, which has none.
    pub closed spec fn has_impl(&self) -> bool {
        self.core@ is Some
    }

    /// Identity of two codec handles: true only for two handles to one
    /// codec. Two handles that were made apart are two codecs, whatever
    /// they are called. Where both refer to an allocation the addresses
    /// decide, so all that is known of a `true` answer is that the two
    /// agree in value. All handles to the codec that knows no format are
    /// identical, and none of them is identical to any other codec.
    pub fn impl_equals(&self, other: &Self) -> (same: bool)
        ensures
            same ==> self@ == other@,
            !self.has_impl() && !other.has_impl() ==> same,
            self.has_impl() != other.has_impl() ==> !same,
    {
        self.core.impl_equals(&other.core)
    }
}

impl PartialEq for ImageCodec {
    /// Codecs compare by identity, which is no function of what they
    /// hold: see [`ImageCodec::impl_equals`].
    fn eq(&self, other: &Self) -> (r: bool) {
        self.impl_equals(other)
    }
}

impl PartialEqSpecImpl for ImageCodec {
    open spec fn obeys_eq_spec() -> bool {
        false
    }

    /// The two agree in value: what `==` answers `true` only for, though
    /// not for all of it.
    open spec fn eq_spec(&self, other: &Self) -> bool {
        self@ == other@
    }
}

impl ArrayType for ImageCodec {
    open spec fn spec_impl_type() -> ImplType {
        ImplType::ArrayVar
    }

    open spec fn spec_same(&self, other: &Self) -> bool {
        self@ == other@
    }

    open spec fn same_is_by_value() -> bool {
        false
    }

    proof fn lemma_shape_is_array() {
    }

    fn impl_type() -> (shape: ImplType) {
        ImplType::ArrayVar
    }

    fn retain(&self) -> (copy: Self) {
        self.clone()
    }

    fn same(&self, other: &Self) -> (r: bool) {
        self.impl_equals(other)
    }
}

/// True when `i` is the index of the best score: a score above zero that
/// no earlier score reaches and no later score exceeds.
pub open spec fn is_best_score(scores: Seq<u32>, i: int) -> bool {
    &&& 0 <= i < scores.len()
    &&& scores[i] > 0
    &&& forall|j: int| 0 <= j < i ==> scores[j] < scores[i]
    &&& forall|j: int| i < j < scores.len() ==> scores[j] <= scores[i]
}

/// There is at most one best score, so a selection by score gives the same
/// answer whenever it is asked, and among equal scores it gives the first.
pub proof fn lemma_best_score_unique(scores: Seq<u32>, i: int, j: int)
    requires
        is_best_score(scores, i),
        is_best_score(scores, j),
    ensures
        i == j,
{
    if i < j {
        assert(scores[i] < scores[j]);
        assert(scores[j] <= scores[i]);
    } else if j < i {
        assert(scores[j] < scores[i]);
        assert(scores[i] <= scores[j]);
    }
}

/// A best score exists exactly when some score is above zero.
pub proof fn lemma_best_score_exists(scores: Seq<u32>)
    ensures
        (exists|i: int| is_best_score(scores, i)) <==> (exists|j: int|
            0 <= j < scores.len() && scores[j] > 0),
    decreases scores.len(),
{
    if exists|j: int| 0 <= j < scores.len() && scores[j] > 0 {
        if scores.len() > 0 {
            let head = scores.drop_last();
            let last = scores.last();
            lemma_best_score_exists(head);
            if exists|j: int| 0 <= j < head.len() && head[j] > 0 {
                let w = choose|j: int| 0 <= j < head.len() && head[j] > 0;
                let b = choose|i: int| is_best_score(head, i);
                assert(forall|j: int| 0 <= j < head.len() ==> head[j] == scores[j]);
                if last > scores[b] {
                    assert(is_best_score(scores, scores.len() - 1));
                } else {
                    assert(is_best_score(scores, b));
                }
            } else {
                assert(forall|j: int| 0 <= j < head.len() ==> head[j] == scores[j]);
                assert(is_best_score(scores, scores.len() - 1));
            }
        }
    }
    if exists|i: int| is_best_score(scores, i) {
        let i = choose|i: int| is_best_score(scores, i);
        assert(0 <= i < scores.len() && scores[i] > 0);
    }
}

/// The index of the best score among `scores`: the highest one, the first
/// of several that are equal, and none where every score is zero.
pub fn best_score(scores: &[u32]) -> (r: Option<usize>)
    ensures
        match r {
            Some(i) => is_best_score(scores@, i as int),
            None => forall|j: int| 0 <= j < scores@.len() ==> scores@[j] == 0,
        },
{
    let mut best: Option<usize> = None;
    let mut best_score: u32 = 0;
    let mut i: usize = 0;
    while i < scores.len()
        invariant
            i <= scores@.len(),
            match best {
                Some(b) => is_best_score(scores@.subrange(0, i as int), b as int) && best_score
                    == scores@[b as int],
                None => best_score == 0 && forall|j: int| 0 <= j < i ==> scores@[j] == 0,
            },
        decreases scores@.len() - i,
    {
        let ghost seen = scores@.subrange(0, i as int);
        let ghost next = scores@.subrange(0, i as int + 1);
        assert(forall|j: int| 0 <= j < i ==> seen[j] == next[j]);
        if best_score < scores[i] {
            best_score = scores[i];
            best = Some(i);
        }
        i = i + 1;
    }
    assert(scores@.subrange(0, i as int) =~= scores@);
    best
}

/// The list of codecs that a process offers. It is a value like any
/// other: whoever looks codecs up or registers one is handed the list.
#[derive(Debug)]
pub struct CodecRegistry {
    codecs: Array<ImageCodec>,
}

impl CodecRegistry {
    /// The registered codecs, in the order in which they were registered.
    pub closed spec fn codecs(&self) -> Array<ImageCodec> {
        self.codecs
    }

    pub open spec fn wf(&self) -> bool {
        self.codecs().wf()
    }

    /// True when a codec of the value `info` is registered.
    pub open spec fn spec_contains(&self, info: CodecInfo) -> bool {
        exists|i: int| 0 <= i < self.codecs()@.len() && (#[trigger] self.codecs()@[i])@ == info
    }

    /// True when `i` is the index of the first registered handle to the
    /// codec that knows no format.
    pub open spec fn is_first_without_impl(&self, i: int) -> bool {
        &&& 0 <= i < self.codecs()@.len()
        &&& !self.codecs()@[i].has_impl()
        &&& forall|j: int| 0 <= j < i ==> (#[trigger] self.codecs()@[j]).has_impl()
    }

    /// Tests the invariant of the registry. It holds of every registry
    /// that this module hands out.
    pub fn is_valid(&self) -> (r: bool)
        ensures
            r == self.wf(),
    {
        self.codecs.is_valid()
    }

    /// A registry without codecs.
    pub fn new() -> (registry: Self)
        ensures
            registry.wf(),
            registry.codecs()@ == Seq::<ImageCodec>::empty(),
    {
        CodecRegistry { codecs: Array::new() }
    }

    /// The index of the first registered handle that is identical to
    /// `codec`. Identity is decided by addresses, so of an index that is
    /// found it is known that the codec there agrees with `codec` in
    /// value, and where no registered codec does, none is found. For the
    /// codec that knows no format nothing is left to the addresses: its
    /// index is that of the first registered handle to it.
    pub fn index_of(&self, codec: &ImageCodec) -> (r: Option<usize>)
        ensures
            r matches Some(i) ==> i < self.codecs()@.len() && self.codecs()@[i as int]@ == codec@,
            !self.spec_contains(codec@) ==> r is None,
            !codec.has_impl() ==> (match r {
                Some(i) => self.is_first_without_impl(i as int),
                None => forall|j: int|
                    0 <= j < self.codecs()@.len() ==> (#[trigger] self.codecs()@[j]).has_impl(),
            }),
    {
        let list = self.codecs.as_slice();
        let mut i: usize = 0;
        while i < list.len()
            invariant
                i <= list@.len(),
                list@ == self.codecs()@,
                !codec.has_impl() ==> forall|j: int| 0 <= j < i ==> (#[trigger] list@[j]).has_impl(),
            decreases list@.len() - i,
        {
            if list[i].impl_equals(codec) {
                return Some(i);
            }
            i = i + 1;
        }
        None
    }
}

impl ImageCodec {
    /// Returns the registered codecs: a second handle to the registry's
    /// list, which stays as it is when the registry changes afterwards.
    pub fn built_in_codecs(registry: &CodecRegistry) -> (list: Array<ImageCodec>)
        ensures
            list@ == registry.codecs()@,
            list == registry.codecs(),
    {
        registry.codecs.clone()
    }

    /// Adds a codec to the registered codecs. A codec that is registered
    /// already is rejected; a codec of which no registered one has the
    /// value is never taken for one that is registered.
    pub fn add_to_built_in(registry: &mut CodecRegistry, codec: &ImageCodec) -> (r: Result<
        (),
        Error,
    >)
        requires
            old(registry).wf(),
        ensures
            final(registry).wf(),
            match r {
                Ok(()) => final(registry).codecs()@ == old(registry).codecs()@.push(*codec),
                Err(e) => {
                    &&& final(registry).codecs()@ == old(registry).codecs()@
                    &&& e == Error::AlreadyExists || e == Error::OutOfMemory
                    &&& e == Error::AlreadyExists ==> old(registry).spec_contains(codec@)
                },
            },
            !codec.has_impl() ==> (r == Err::<(), Error>(Error::AlreadyExists)) == (exists|i: int|
                old(registry).is_first_without_impl(i)),
    {
        match registry.index_of(codec) {
            Some(_) => Err(Error::AlreadyExists),
            None => match registry.codecs.push(codec.clone()) {
                Ok(()) => Ok(()),
                Err(_) => Err(Error::OutOfMemory),
            },
        }
    }

    /// Removes the codec from the registered codecs. A codec that is not
    /// registered is reported, and so is every codec of which no
    /// registered one has the value.
    pub fn remove_from_built_in(registry: &mut CodecRegistry, codec: &ImageCodec) -> (r: Result<
        (),
        Error,
    >)
        requires
            old(registry).wf(),
        ensures
            final(registry).wf(),
            match r {
                Ok(()) => exists|i: int|
                    {
                        &&& 0 <= i < old(registry).codecs()@.len()
                        &&& (#[trigger] old(registry).codecs()@[i])@ == codec@
                        &&& final(registry).codecs()@ == old(registry).codecs()@.remove(i)
                    },
                Err(e) => e == Error::NoEntry && final(registry).codecs()@ == old(
                    registry,
                ).codecs()@,
            },
            !old(registry).spec_contains(codec@) ==> r is Err,
            !codec.has_impl() ==> (match r {
                Ok(()) => exists|i: int|
                    old(registry).is_first_without_impl(i) && final(registry).codecs()@ == old(
                        registry,
                    ).codecs()@.remove(i),
                Err(_) => forall|j: int|
                    0 <= j < old(registry).codecs()@.len() ==> (#[trigger] old(
                        registry,
                    ).codecs()@[j]).has_impl(),
            }),
    {
        match registry.index_of(codec) {
            Some(i) => {
                let removed = registry.codecs.remove(i);
                assert(old(registry).codecs()@[i as int]@ == codec@);
                Ok(())
            },
            None => Err(Error::NoEntry),
        }
    }
}

/// Compares two texts byte by byte. Nothing is allocated.
pub fn same_text(a: &str, b: &str) -> (r: bool)
    ensures
        r == (a@ == b@),
{
    let x = a.as_bytes();
    let y = b.as_bytes();
    proof {
        encode_utf8_decode_utf8(a@);
        encode_utf8_decode_utf8(b@);
    }
    if x.len() != y.len() {
        return false;
    }
    let mut i: usize = 0;
    while i < x.len()
        invariant
            i <= x@.len(),
            x@.len() == y@.len(),
            x@ == encode_utf8(a@),
            y@ == encode_utf8(b@),
            forall|j: int| 0 <= j < i ==> x@[j] == y@[j],
        decreases x@.len() - i,
    {
        if x[i] != y[i] {
            assert(x@ != y@);
            return false;
        }
        i = i + 1;
    }
    assert(x@ =~= y@);
    true
}

impl Array<ImageCodec> {
    /// Searches for an image codec in the array by the given name.
    pub fn find_codec_by_name(&self, name: &str) -> (r: Option<&ImageCodec>)
        ensures
            match r {
                Some(codec) => exists|i: int|
                    {
                        &&& 0 <= i < self@.len()
                        &&& *codec == self@[i]
                        &&& self@[i]@.name == name@
                        &&& forall|j: int| 0 <= j < i ==> (#[trigger] self@[j])@.name != name@
                    },
                None => forall|j: int| 0 <= j < self@.len() ==> (#[trigger] self@[j])@.name
                    != name@,
            },
    {
        let list = self.as_slice();
        let mut i: usize = 0;
        while i < list.len()
            invariant
                i <= list@.len(),
                list@ == self@,
                forall|j: int| 0 <= j < i ==> (#[trigger] list@[j])@.name != name@,
            decreases list@.len() - i,
        {
            if same_text(list[i].name(), name) {
                return Some(&list[i]);
            }
            i = i + 1;
        }
        None
    }

    /// Searches for the image codec in the array that fits the data best.
    /// `scores` holds, for each codec of the array in turn, how sure that
    /// codec is that the data is of its format. The codec with the
    /// highest score is chosen, the first of several with that score, and
    /// none where no codec recognises the data or the scores are not
    /// those of this array.
    pub fn find_codec_by_data(&self, scores: &[u32]) -> (r: Option<&ImageCodec>)
        ensures
            match r {
                Some(codec) => exists|i: int|
                    {
                        &&& scores@.len() == self@.len()
                        &&& is_best_score(scores@, i)
                        &&& *codec == self@[i]
                    },
                None => scores@.len() != self@.len() || forall|j: int|
                    0 <= j < scores@.len() ==> scores@[j] == 0,
            },
    {
        let list = self.as_slice();
        if scores.len() != list.len() {
            return None;
        }
        match best_score(scores) {
            Some(i) => Some(&list[i]),
            None => None,
        }
    }
}

/// The position that a step reached, or why it failed, without what the
/// step produced.
pub open spec fn spec_position<I>(outcome: Result<(I, usize), Error>) -> Result<usize, Error> {
    match outcome {
        Ok((_, position)) => Ok(position),
        Err(e) => Err(e),
    }
}

/// What a step hands to its caller: the failure that the session carried
/// before the step, else what the step produced or the failure it met; a
/// frame that the session cannot count is refused as the end of the data.
pub open spec fn spec_yield<I>(before: Session, counts: bool, outcome: Result<(I, usize), Error>)
    -> Result<I, Error> {
    match (before.last_error, outcome) {
        (Some(e), _) => Err(e),
        (None, Ok((item, _))) => if counts && before.frame_index == u64::MAX {
            Err(Error::NoMoreData)
        } else {
            Ok(item)
        },
        (None, Err(e)) => Err(e),
    }
}

/// An image decoder belonging to a certain [`ImageCodec`].
#[derive(Debug)]
pub struct ImageDecoder {
    codec: ImageCodec,
    session: Handle<Session>,
}

impl View for ImageDecoder {
    type V = Session;

    closed spec fn view(&self) -> Session {
        match self.session@ {
            Some(s) => s,
            None => Session::spec_initial(),
        }
    }
}

/// Reads the state of a session through its handle.
fn session_of(handle: &Handle<Session>) -> (s: Session)
    ensures
        s == (match handle@ {
            Some(s) => s,
            None => Session::spec_initial(),
        }),
{
    match handle.get() {
        Some(s) => *s,
        None => Session::initial(),
    }
}

/// The state of a session for writing, detached from every other handle.
fn session_mut(handle: &mut Handle<Session>) -> (s: &mut Session)
    ensures
        *s == (match old(handle)@ {
            Some(s) => s,
            None => Session::spec_initial(),
        }),
        final(handle)@ == Some(*final(s)),
{
    handle.force_mutable(Session::initial())
}

impl ImageDecoder {
    /// The codec this decoder belongs to.
    pub closed spec fn spec_codec(&self) -> ImageCodec {
        self.codec
    }

    /// True when the decoder holds a session allocation, its own or a shared
    /// one. Every decoder that a codec creates holds one, and keeps one
    /// through every step.
    pub closed spec fn has_session(&self) -> bool {
        self.session@ is Some
    }

    /// The codec this decoder belongs to.
    pub fn codec(&self) -> (codec: &ImageCodec)
        ensures
            *codec == self.spec_codec(),
    {
        &self.codec
    }

    /// Returns the decoder to the state in which it was created. The
    /// codec stays the same.
    pub fn restart(&mut self) -> (r: Result<(), Error>)
        ensures
            r is Ok,
            final(self)@ == old(self)@.restarted(),
            final(self).spec_codec() == old(self).spec_codec(),
            final(self).has_session(),
    {
        let s = session_mut(&mut self.session);
        *s = Session::initial();
        Ok(())
    }

    /// The last decoding result.
    pub fn last_result(&self) -> (r: Result<(), Error>)
        ensures
            r == self@.report(),
    {
        match session_of(&self.session).last_error {
            Some(e) => Err(e),
            None => Ok(()),
        }
    }

    /// The current frame index (to be decoded).
    pub fn frame_index(&self) -> (n: u64)
        ensures
            n == self@.frame_index,
    {
        session_of(&self.session).frame_index
    }

    /// The position in the source buffer.
    pub fn buffer_index(&self) -> (n: usize)
        ensures
            n == self@.buffer_index,
    {
        session_of(&self.session).buffer_index
    }

    /// Whether the next step of the decoder is to be taken, or what it comes
    /// to without being taken.
    pub fn next_action(&self) -> (action: SessionAction)
        ensures
            action == self@.spec_next_action(),
    {
        session_of(&self.session).next_action()
    }

    /// Where the decoder stands in its protocol.
    pub fn phase(&self) -> (p: SessionPhase)
        ensures
            p == self@.spec_phase(),
    {
        session_of(&self.session).phase()
    }

    /// Takes in what came of reading the header of a stream: the
    /// information it holds and where it ends, or why it could not be
    /// read. A failure is recorded and returned; a decoder that carries a
    /// failure returns that one and is left as it is.
    pub fn read_info(&mut self, header: Result<(ImageInfo, usize), Error>) -> (r: Result<
        ImageInfo,
        Error,
    >)
        ensures
            final(self)@ == old(self)@.after_header(spec_position(header)),
            final(self).spec_codec() == old(self).spec_codec(),
            final(self).has_session(),
            r == spec_yield(old(self)@, false, header),
    {
        let s = session_mut(&mut self.session);
        if let Some(e) = s.last_error {
            return Err(e);
        }
        match header {
            Ok((info, position)) => {
                s.header_done(Ok(position));
                Ok(info)
            },
            Err(e) => {
                s.header_done(Err(e));
                Err(e)
            },
        }
    }

    /// Takes in what came of decoding one frame: the frame and where it
    /// ends, or why it could not be decoded. Success advances the frame
    /// index; a failure is recorded and returned and leaves the frame
    /// index as it is.
    pub fn read_frame<I>(&mut self, frame: Result<(I, usize), Error>) -> (r: Result<I, Error>)
        ensures
            final(self)@ == old(self)@.after_frame(spec_position(frame)),
            final(self).spec_codec() == old(self).spec_codec(),
            final(self).has_session(),
            r == spec_yield(old(self)@, true, frame),
    {
        let s = session_mut(&mut self.session);
        if let Some(e) = s.last_error {
            return Err(e);
        }
        match frame {
            Ok((image, position)) => {
                let full = s.frame_index == u64::MAX;
                s.frame_done(Ok(position));
                if full {
                    Err(Error::NoMoreData)
                } else {
                    Ok(image)
                }
            },
            Err(e) => {
                s.frame_done(Err(e));
                Err(e)
            },
        }
    }

    /// Identity of two decoders: true only for two handles to one session
    /// of one codec. Addresses decide, so all that is known of a `true`
    /// answer is that the two agree in their state and their codec. A
    /// handle that holds a session allocation is never identical to one
    /// that holds none.
    pub fn impl_equals(&self, other: &Self) -> (same: bool)
        ensures
            same ==> self@ == other@ && self.spec_codec()@ == other.spec_codec()@,
            self.has_session() != other.has_session() ==> !same,
    {
        self.session.impl_equals(&other.session) && self.codec.impl_equals(&other.codec)
    }
}

impl Clone for ImageDecoder {
    /// A second handle to the same session. The first step that is taken
    /// through either handle gives that handle a session of its own.
    fn clone(&self) -> (copy: Self)
        ensures
            copy == *self,
            copy@ == self@,
    {
        ImageDecoder { codec: self.codec.clone(), session: self.session.clone_shared() }
    }
}

impl PartialEq for ImageDecoder {
    /// Decoders compare by identity, which is no function of what they
    /// hold: see [`ImageDecoder::impl_equals`].
    fn eq(&self, other: &Self) -> (r: bool) {
        self.impl_equals(other)
    }
}

impl PartialEqSpecImpl for ImageDecoder {
    open spec fn obeys_eq_spec() -> bool {
        false
    }

    /// The two agree in their state: what `==` answers `true` only for,
    /// though not for all of it.
    open spec fn eq_spec(&self, other: &Self) -> bool {
        self@ == other@
    }
}

/// An image encoder belonging to a certain [`ImageCodec`].
#[derive(Debug)]
pub struct ImageEncoder {
    codec: ImageCodec,
    session: Handle<Session>,
}

impl View for ImageEncoder {
    type V = Session;

    closed spec fn view(&self) -> Session {
        match self.session@ {
            Some(s) => s,
            None => Session::spec_initial(),
        }
    }
}

/// What came of encoding a frame, as a step of the protocol: the bytes
/// together with their number, which is where the encoder stands after
/// them.
pub open spec fn spec_encoded(outcome: Result<Array<u8>, Error>) -> Result<
    (Array<u8>, usize),
    Error,
> {
    match outcome {
        Ok(bytes) => Ok((bytes, bytes@.len() as usize)),
        Err(e) => Err(e),
    }
}

impl ImageEncoder {
    /// The codec this encoder belongs to.
    pub closed spec fn spec_codec(&self) -> ImageCodec {
        self.codec
    }

    /// True when the encoder holds a session allocation, its own or a shared
    /// one. Every encoder that a codec creates holds one, and keeps one
    /// through every step.
    pub closed spec fn has_session(&self) -> bool {
        self.session@ is Some
    }

    /// The codec this encoder belongs to.
    pub fn codec(&self) -> (codec: &ImageCodec)
        ensures
            *codec == self.spec_codec(),
    {
        &self.codec
    }

    /// Returns the encoder to the state in which it was created. The
    /// codec stays the same.
    pub fn restart(&mut self) -> (r: Result<(), Error>)
        ensures
            r is Ok,
            final(self)@ == old(self)@.restarted(),
            final(self).spec_codec() == old(self).spec_codec(),
            final(self).has_session(),
    {
        let s = session_mut(&mut self.session);
        *s = Session::initial();
        Ok(())
    }

    /// The last encoding result.
    pub fn last_result(&self) -> (r: Result<(), Error>)
        ensures
            r == self@.report(),
    {
        match session_of(&self.session).last_error {
            Some(e) => Err(e),
            None => Ok(()),
        }
    }

    /// The current frame index (to be encoded).
    pub fn frame_index(&self) -> (n: u64)
        ensures
            n == self@.frame_index,
    {
        session_of(&self.session).frame_index
    }

    /// The position in the destination buffer.
    pub fn buffer_index(&self) -> (n: usize)
        ensures
            n == self@.buffer_index,
    {
        session_of(&self.session).buffer_index
    }

    /// Whether the next step of the encoder is to be taken, or what it comes
    /// to without being taken.
    pub fn next_action(&self) -> (action: SessionAction)
        ensures
            action == self@.spec_next_action(),
    {
        session_of(&self.session).next_action()
    }

    /// Where the encoder stands in its protocol.
    pub fn phase(&self) -> (p: SessionPhase)
        ensures
            p == self@.spec_phase(),
    {
        session_of(&self.session).phase()
    }

    /// Takes in what came of encoding one frame: the bytes of the frame,
    /// or why it could not be encoded. Success advances the frame index
    /// and hands the bytes on; a failure is recorded and returned.
    pub fn write_frame(&mut self, encoded: Result<Array<u8>, Error>) -> (r: Result<
        Array<u8>,
        Error,
    >)
        ensures
            final(self)@ == old(self)@.after_frame(spec_position(spec_encoded(encoded))),
            final(self).spec_codec() == old(self).spec_codec(),
            final(self).has_session(),
            r == spec_yield(old(self)@, true, spec_encoded(encoded)),
    {
        let s = session_mut(&mut self.session);
        if let Some(e) = s.last_error {
            return Err(e);
        }
        match encoded {
            Ok(bytes) => {
                let full = s.frame_index == u64::MAX;
                s.frame_done(Ok(bytes.len()));
                if full {
                    Err(Error::NoMoreData)
                } else {
                    Ok(bytes)
                }
            },
            Err(e) => {
                s.frame_done(Err(e));
                Err(e)
            },
        }
    }

    /// Identity of two encoders: true only for two handles to one session
    /// of one codec. Addresses decide, so all that is known of a `true`
    /// answer is that the two agree in their state and their codec. A
    /// handle that holds a session allocation is never identical to one
    /// that holds none.
    pub fn impl_equals(&self, other: &Self) -> (same: bool)
        ensures
            same ==> self@ == other@ && self.spec_codec()@ == other.spec_codec()@,
            self.has_session() != other.has_session() ==> !same,
    {
        self.session.impl_equals(&other.session) && self.codec.impl_equals(&other.codec)
    }
}

impl Clone for ImageEncoder {
    /// A second handle to the same session. The first step that is taken
    /// through either handle gives that handle a session of its own.
    fn clone(&self) -> (copy: Self)
        ensures
            copy == *self,
            copy@ == self@,
    {
        ImageEncoder { codec: self.codec.clone(), session: self.session.clone_shared() }
    }
}

impl PartialEq for ImageEncoder {
    /// Encoders compare by identity, which is no function of what they
    /// hold: see [`ImageEncoder::impl_equals`].
    fn eq(&self, other: &Self) -> (r: bool) {
        self.impl_equals(other)
    }
}

impl PartialEqSpecImpl for ImageEncoder {
    open spec fn obeys_eq_spec() -> bool {
        false
    }

    /// The two agree in their state: what `==` answers `true` only for,
    /// though not for all of it.
    open spec fn eq_spec(&self, other: &Self) -> bool {
        self@ == other@
    }
}

impl ImageCodec {
    /// Creates an [`ImageDecoder`] for this codec, if the codec can read.
    pub fn create_decoder(&self) -> (r: Option<ImageDecoder>)
        ensures
            r is Some <==> self@.features.spec_contains(FEATURE_READ),
            !self.has_impl() ==> r is None,
            r matches Some(decoder) ==> decoder.spec_codec() == *self && decoder@
                == Session::spec_initial() && decoder.has_session(),
    {
        proof {
            ImageCodecFeatures::lemma_empty_holds_nothing(FEATURE_READ);
        }
        if self.features().contains(FEATURE_READ) {
            Some(ImageDecoder { codec: self.clone(), session: Handle::new(Session::initial()) })
        } else {
            None
        }
    }

    /// Creates an [`ImageEncoder`] for this codec, if the codec can write.
    pub fn create_encoder(&self) -> (r: Option<ImageEncoder>)
        ensures
            r is Some <==> self@.features.spec_contains(FEATURE_WRITE),
            !self.has_impl() ==> r is None,
            r matches Some(encoder) ==> encoder.spec_codec() == *self && encoder@
                == Session::spec_initial() && encoder.has_session(),
    {
        proof {
            ImageCodecFeatures::lemma_empty_holds_nothing(FEATURE_WRITE);
        }
        if self.features().contains(FEATURE_WRITE) {
            Some(ImageEncoder { codec: self.clone(), session: Handle::new(Session::initial()) })
        } else {
            None
        }
    }
}

} // verus!
