use crate::color::RGBA8;
use crate::frame::{
    FrameView, QuadMessage, RenderFrame, SetTranslationMessage, TriangleMessage, Vector2Bits,
    Vector3Bits,
};
use crate::tracker::{
    lemma_add_keeps_inv, lemma_add_matches_create, lemma_empty_tracker_has_empty_slots,
    lemma_remove_keeps_inv, lemma_remove_matches_release, IndexToken, IndexTracker, SlotsView,
    TokenError, TrackerState,
};
use vstd::prelude::*;

verus! {

/// Mathematical state of a producer.
pub struct ProducerState {
    /// The frame being accumulated.
    pub frame: FrameView,
    /// The tracker of the quads.
    pub rects: TrackerState,
    /// The tracker of the triangles.
    pub triangles: TrackerState,
    /// Every frame published so far, the first one first.
    pub sent: Seq<FrameView>,
}

impl ProducerState {
    /// The state of a producer that has done nothing yet.
    pub open spec fn initial() -> ProducerState {
        ProducerState {
            frame: FrameView::empty(),
            rects: TrackerState::empty(0),
            triangles: TrackerState::empty(1),
            sent: Seq::empty(),
        }
    }

    /// Every quad command appended so far, over all frames, in program
    /// order.
    pub open spec fn quad_history(self) -> Seq<QuadMessage> {
        quads_of(self.sent) + self.frame.quads
    }

    /// Every triangle command appended so far, over all frames, in program
    /// order.
    pub open spec fn triangle_history(self) -> Seq<TriangleMessage> {
        triangles_of(self.sent) + self.frame.triangles
    }

    /// What holds of every state a producer can reach: both trackers are
    /// sound, their namespaces differ, and the render side, applying every
    /// command appended so far in order, never meets an update or a removal
    /// of a slot that is not in use, and ends with exactly the slots that the
    /// live tokens occupy.
    pub open spec fn inv(self) -> bool {
        &&& self.rects.inv()
        &&& self.triangles.inv()
        &&& self.rects.namespace == 0
        &&& self.triangles.namespace == 1
        &&& replay_quads(self.quad_history()) == Some(self.rects.slots())
        &&& replay_triangles(self.triangle_history()) == Some(self.triangles.slots())
    }

    /// The state after a quad was created under token `t`.
    pub open spec fn create_rect(
        self,
        t: IndexToken,
        pos: Vector2Bits,
        size: Vector2Bits,
        color: RGBA8,
    ) -> ProducerState {
        ProducerState {
            frame: FrameView {
                quads: self.frame.quads.push(QuadMessage::Create { pos, size, color }),
                ..self.frame
            },
            rects: self.rects.add(t),
            ..self
        }
    }

    /// The state after the quad of the live token `t` was updated.
    pub open spec fn update_rect(
        self,
        t: IndexToken,
        pos: Vector2Bits,
        size: Vector2Bits,
        color: RGBA8,
    ) -> ProducerState {
        ProducerState {
            frame: FrameView {
                quads: self.frame.quads.push(
                    QuadMessage::Update { id: self.rects.live[t] as usize, pos, size, color },
                ),
                ..self.frame
            },
            ..self
        }
    }

    /// The state after the quad of the live token `t` was removed.
    pub open spec fn remove_rect(self, t: IndexToken) -> ProducerState {
        ProducerState {
            frame: FrameView {
                quads: self.frame.quads.push(
                    QuadMessage::Remove { id: self.rects.live[t] as usize },
                ),
                ..self.frame
            },
            rects: self.rects.remove(t),
            ..self
        }
    }

    /// The state after a triangle was created under token `t`.
    pub open spec fn create_triangle(
        self,
        t: IndexToken,
        pos: Vector2Bits,
        height: u32,
        color: RGBA8,
    ) -> ProducerState {
        ProducerState {
            frame: FrameView {
                triangles: self.frame.triangles.push(
                    TriangleMessage::Create { pos, height, color },
                ),
                ..self.frame
            },
            triangles: self.triangles.add(t),
            ..self
        }
    }

    /// The state after the triangle of the live token `t` was updated.
    pub open spec fn update_triangle(
        self,
        t: IndexToken,
        pos: Vector2Bits,
        height: u32,
        color: RGBA8,
    ) -> ProducerState {
        ProducerState {
            frame: FrameView {
                triangles: self.frame.triangles.push(
                    TriangleMessage::Update {
                        id: self.triangles.live[t] as usize,
                        pos,
                        height,
                        color,
                    },
                ),
                ..self.frame
            },
            ..self
        }
    }

    /// The state after the triangle of the live token `t` was removed.
    pub open spec fn remove_triangle(self, t: IndexToken) -> ProducerState {
        ProducerState {
            frame: FrameView {
                triangles: self.frame.triangles.push(
                    TriangleMessage::Remove { id: self.triangles.live[t] as usize },
                ),
                ..self.frame
            },
            triangles: self.triangles.remove(t),
            ..self
        }
    }

    /// The state after the translation was set: the earlier one of this
    /// frame, if any, is overwritten.
    pub open spec fn set_translation(self, translation: Vector3Bits) -> ProducerState {
        ProducerState {
            frame: FrameView {
                translation: Some(SetTranslationMessage { translation }),
                ..self.frame
            },
            ..self
        }
    }

    /// The state after the frame was published: it is the last frame sent,
    /// and an empty frame has taken its place.
    pub open spec fn send(self) -> ProducerState {
        ProducerState { frame: FrameView::empty(), sent: self.sent.push(self.frame), ..self }
    }

    /// The state after each of `frames` in turn was accumulated and published.
    pub open spec fn send_each(self, frames: Seq<FrameView>) -> ProducerState
        decreases frames.len(),
    {
        if frames.len() == 0 {
            self
        } else {
            (ProducerState { frame: frames.last(), ..self.send_each(frames.drop_last()) }).send()
        }
    }
}

/// Whether the render side can apply a quad command to its slots: an update
/// or a removal must name a slot in use.
pub open spec fn accepts_quad(slots: SlotsView, m: QuadMessage) -> bool {
    match m {
        QuadMessage::Create { .. } => true,
        QuadMessage::Update { id, .. } => slots.active.contains(id as nat),
        QuadMessage::Remove { id } => slots.active.contains(id as nat),
    }
}

/// The slots of the render side after it applied a quad command.
pub open spec fn apply_quad(slots: SlotsView, m: QuadMessage) -> SlotsView {
    match m {
        QuadMessage::Create { .. } => slots.create(),
        QuadMessage::Update { .. } => slots,
        QuadMessage::Remove { id } => slots.release(id as nat),
    }
}

/// Whether the render side can apply a triangle command to its slots: an
/// update or a removal must name a slot in use.
pub open spec fn accepts_triangle(slots: SlotsView, m: TriangleMessage) -> bool {
    match m {
        TriangleMessage::Create { .. } => true,
        TriangleMessage::Update { id, .. } => slots.active.contains(id as nat),
        TriangleMessage::Remove { id } => slots.active.contains(id as nat),
    }
}

/// The slots of the render side after it applied a triangle command.
pub open spec fn apply_triangle(slots: SlotsView, m: TriangleMessage) -> SlotsView {
    match m {
        TriangleMessage::Create { .. } => slots.create(),
        TriangleMessage::Update { .. } => slots,
        TriangleMessage::Remove { id } => slots.release(id as nat),
    }
}

/// The quad commands of a sequence of frames, in order.
pub open spec fn quads_of(frames: Seq<FrameView>) -> Seq<QuadMessage>
    decreases frames.len(),
{
    if frames.len() == 0 {
        Seq::empty()
    } else {
        quads_of(frames.drop_last()) + frames.last().quads
    }
}

/// The triangle commands of a sequence of frames, in order.
pub open spec fn triangles_of(frames: Seq<FrameView>) -> Seq<TriangleMessage>
    decreases frames.len(),
{
    if frames.len() == 0 {
        Seq::empty()
    } else {
        triangles_of(frames.drop_last()) + frames.last().triangles
    }
}

/// The slots of the render side after it applied the quad commands in order,
/// starting with no slot; None if it met a command that it cannot apply.
pub open spec fn replay_quads(commands: Seq<QuadMessage>) -> Option<SlotsView>
    decreases commands.len(),
{
    if commands.len() == 0 {
        Some(SlotsView::empty())
    } else {
        match replay_quads(commands.drop_last()) {
            Some(slots) => if accepts_quad(slots, commands.last()) {
                Some(apply_quad(slots, commands.last()))
            } else {
                None
            },
            None => None,
        }
    }
}

/// The slots of the render side after it applied the triangle commands in
/// order, starting with no slot; None if it met a command that it cannot
/// apply.
pub open spec fn replay_triangles(commands: Seq<TriangleMessage>) -> Option<SlotsView>
    decreases commands.len(),
{
    if commands.len() == 0 {
        Some(SlotsView::empty())
    } else {
        match replay_triangles(commands.drop_last()) {
            Some(slots) => if accepts_triangle(slots, commands.last()) {
                Some(apply_triangle(slots, commands.last()))
            } else {
                None
            },
            None => None,
        }
    }
}

/// The producing side of the frame pipeline: it resolves tokens, accumulates
/// the commands of the current frame, and hands complete frames out.
pub struct RenderProducer {
    frame: RenderFrame,
    map_rect: IndexTracker,
    map_triangle: IndexTracker,
    sent: Ghost<Seq<FrameView>>,
}

impl View for RenderProducer {
    type V = ProducerState;

    closed spec fn view(&self) -> ProducerState {
        ProducerState {
            frame: self.frame@,
            rects: self.map_rect@,
            triangles: self.map_triangle@,
            sent: self.sent@,
        }
    }
}

impl RenderProducer {
    /// The producer is in a state that it can reach.
    pub closed spec fn wf(&self) -> bool {
        &&& self.map_rect.wf()
        &&& self.map_triangle.wf()
        &&& self@.inv()
    }

    /// A reachable producer satisfies the invariant of its model.
    pub proof fn lemma_wf_inv(&self)
        requires
            self.wf(),
        ensures
            self@.inv(),
    {
    }

    /// A producer with an empty frame, no token issued and nothing sent.
    pub fn new() -> (producer: RenderProducer)
        ensures
            producer.wf(),
            producer@ == ProducerState::initial(),
    {
        let producer = RenderProducer {
            frame: RenderFrame::new(),
            map_rect: IndexTracker::with_namespace(0),
            map_triangle: IndexTracker::with_namespace(1),
            sent: Ghost(Seq::empty()),
        };
        proof {
            lemma_initial_inv();
        }
        producer
    }

    /// The tracker of the quads.
    pub fn rects(&self) -> (tracker: &IndexTracker)
        requires
            self.wf(),
        ensures
            tracker.wf(),
            tracker@ == self@.rects,
    {
        &self.map_rect
    }

    /// The tracker of the triangles.
    pub fn triangles(&self) -> (tracker: &IndexTracker)
        requires
            self.wf(),
        ensures
            tracker.wf(),
            tracker@ == self@.triangles,
    {
        &self.map_triangle
    }

    /// Creates a quad: appends its creation to the frame and returns the
    /// fresh token of the quad at once.
    pub fn create_rect(&mut self, pos: Vector2Bits, size: Vector2Bits, color: RGBA8) -> (token:
        IndexToken)
        requires
            old(self).wf(),
            old(self)@.rects.count < usize::MAX,
        ensures
            final(self).wf(),
            !old(self)@.rects.issued.contains(token),
            token.namespace() == 0,
            final(self)@ == old(self)@.create_rect(token, pos, size, color),
    {
        let message = QuadMessage::Create { pos, size, color };
        self.frame.quads.push(message);
        let token = self.map_rect.add();
        proof {
            lemma_quad_calls_keep_inv(old(self)@, token, pos, size, color);
        }
        token
    }

    /// Updates the quad of a live token; fails, changing nothing, for any
    /// other token.
    pub fn update_rect(
        &mut self,
        token: &IndexToken,
        pos: Vector2Bits,
        size: Vector2Bits,
        color: RGBA8,
    ) -> (result: Result<(), TokenError>)
        requires
            old(self).wf(),
        ensures
            final(self).wf(),
            old(self)@.rects.live.contains_key(*token) ==> result is Ok && final(self)@ == old(
                self,
            )@.update_rect(*token, pos, size, color),
            !old(self)@.rects.live.contains_key(*token) ==> result == Err::<(), TokenError>(
                TokenError::InvalidToken,
            ) && final(self)@ == old(self)@,
    {
        match self.map_rect.get(token) {
            Ok(id) => {
                let message = QuadMessage::Update { id, pos, size, color };
                self.frame.quads.push(message);
                proof {
                    lemma_quad_calls_keep_inv(old(self)@, *token, pos, size, color);
                }
                Ok(())
            },
            Err(e) => Err(e),
        }
    }

    /// Removes the quad of a live token, which ends the life of the token;
    /// fails, changing nothing, for any other token.
    pub fn remove_rect(&mut self, token: IndexToken) -> (result: Result<(), TokenError>)
        requires
            old(self).wf(),
        ensures
            final(self).wf(),
            old(self)@.rects.live.contains_key(token) ==> result is Ok && final(self)@ == old(
                self,
            )@.remove_rect(token),
            !old(self)@.rects.live.contains_key(token) ==> result == Err::<(), TokenError>(
                TokenError::InvalidToken,
            ) && final(self)@ == old(self)@,
    {
        match self.map_rect.remove(token) {
            Ok(id) => {
                let message = QuadMessage::Remove { id };
                self.frame.quads.push(message);
                proof {
                    lemma_quad_calls_keep_inv(
                        old(self)@,
                        token,
                        Vector2Bits { x: 0, y: 0 },
                        Vector2Bits { x: 0, y: 0 },
                        RGBA8 { r: 0, g: 0, b: 0, a: 0 },
                    );
                }
                Ok(())
            },
            Err(e) => Err(e),
        }
    }

    /// Creates a triangle: appends its creation to the frame and returns the
    /// fresh token of the triangle at once.
    pub fn create_triangle(&mut self, pos: Vector2Bits, height: u32, color: RGBA8) -> (token:
        IndexToken)
        requires
            old(self).wf(),
            old(self)@.triangles.count < usize::MAX,
        ensures
            final(self).wf(),
            !old(self)@.triangles.issued.contains(token),
            token.namespace() == 1,
            final(self)@ == old(self)@.create_triangle(token, pos, height, color),
    {
        let message = TriangleMessage::Create { pos, height, color };
        self.frame.triangles.push(message);
        let token = self.map_triangle.add();
        proof {
            lemma_triangle_calls_keep_inv(old(self)@, token, pos, height, color);
        }
        token
    }

    /// Updates the triangle of a live token; fails, changing nothing, for any
    /// other token.
    pub fn update_triangle(
        &mut self,
        token: &IndexToken,
        pos: Vector2Bits,
        height: u32,
        color: RGBA8,
    ) -> (result: Result<(), TokenError>)
        requires
            old(self).wf(),
        ensures
            final(self).wf(),
            old(self)@.triangles.live.contains_key(*token) ==> result is Ok && final(self)@
                == old(self)@.update_triangle(*token, pos, height, color),
            !old(self)@.triangles.live.contains_key(*token) ==> result == Err::<(), TokenError>(
                TokenError::InvalidToken,
            ) && final(self)@ == old(self)@,
    {
        match self.map_triangle.get(token) {
            Ok(id) => {
                let message = TriangleMessage::Update { id, pos, height, color };
                self.frame.triangles.push(message);
                proof {
                    lemma_triangle_calls_keep_inv(old(self)@, *token, pos, height, color);
                }
                Ok(())
            },
            Err(e) => Err(e),
        }
    }

    /// Removes the triangle of a live token, which ends the life of the
    /// token; fails, changing nothing, for any other token.
    pub fn remove_triangle(&mut self, token: IndexToken) -> (result: Result<(), TokenError>)
        requires
            old(self).wf(),
        ensures
            final(self).wf(),
            old(self)@.triangles.live.contains_key(token) ==> result is Ok && final(self)@ == old(
                self,
            )@.remove_triangle(token),
            !old(self)@.triangles.live.contains_key(token) ==> result == Err::<(), TokenError>(
                TokenError::InvalidToken,
            ) && final(self)@ == old(self)@,
    {
        match self.map_triangle.remove(token) {
            Ok(id) => {
                let message = TriangleMessage::Remove { id };
                self.frame.triangles.push(message);
                proof {
                    lemma_triangle_calls_keep_inv(
                        old(self)@,
                        token,
                        Vector2Bits { x: 0, y: 0 },
                        0,
                        RGBA8 { r: 0, g: 0, b: 0, a: 0 },
                    );
                }
                Ok(())
            },
            Err(e) => Err(e),
        }
    }

    /// Sets the translation of the current frame, in place of any set
    /// earlier in the same frame.
    pub fn set_translation(&mut self, translation: Vector3Bits)
        requires
            old(self).wf(),
        ensures
            final(self).wf(),
            final(self)@ == old(self)@.set_translation(translation),
    {
        let message = SetTranslationMessage { translation };
        self.frame.translation = Some(message);
        proof {
            lemma_frame_calls_keep_inv(old(self)@, translation);
        }
    }

    /// Ends the current frame: puts an empty frame in its place and returns
    /// it whole, to be enqueued for the render thread.
    pub fn send(&mut self) -> (frame: RenderFrame)
        requires
            old(self).wf(),
        ensures
            final(self).wf(),
            frame@ == old(self)@.frame,
            final(self)@ == old(self)@.send(),
    {
        let mut frame = RenderFrame::new();
        std::mem::swap(&mut frame, &mut self.frame);
        proof {
            self.sent@ = self.sent@.push(frame@);
            lemma_frame_calls_keep_inv(old(self)@, Vector3Bits { x: 0, y: 0, z: 0 });
        }
        frame
    }
}

/// A frame to which nothing was added is still published: it is the empty
/// frame, with no command and no translation. In particular the second of
/// two sends in a row publishes the empty frame.
pub proof fn lemma_send_of_empty_frame(s: ProducerState)
    ensures
        s.frame == FrameView::empty() ==> s.send().sent == s.sent.push(FrameView::empty()),
        s.send().send().sent == s.send().sent.push(FrameView::empty()),
        s.send().send().sent.last().quads.len() == 0,
        s.send().send().sent.last().triangles.len() == 0,
        s.send().send().sent.last().translation is None,
{
}

/// A quad created, updated and removed within one frame is published as
/// exactly its creation, its update and its removal, in that order, after
/// what the frame held before, and both later commands carry the index that
/// the creation assigned.
pub proof fn lemma_create_update_remove_in_order(
    s: ProducerState,
    a: IndexToken,
    pos: Vector2Bits,
    size: Vector2Bits,
    color: RGBA8,
    new_pos: Vector2Bits,
    new_size: Vector2Bits,
    new_color: RGBA8,
)
    requires
        s.inv(),
        s.rects.count < usize::MAX,
        !s.rects.issued.contains(a),
        a.namespace() == 0,
    ensures
        ({
            let created = s.create_rect(a, pos, size, color);
            let updated = created.update_rect(a, new_pos, new_size, new_color);
            let removed = updated.remove_rect(a);
            let id = s.rects.next_index() as usize;
            &&& created.rects.live.contains_key(a)
            &&& updated.rects.live.contains_key(a)
            &&& !removed.rects.live.contains_key(a)
            &&& id as nat == s.rects.next_index()
            &&& removed.send().sent.last().quads == s.frame.quads + seq![
                QuadMessage::Create { pos, size, color },
                QuadMessage::Update { id, pos: new_pos, size: new_size, color: new_color },
                QuadMessage::Remove { id },
            ]
            &&& removed.send().sent.len() == s.sent.len() + 1
        }),
{
    let created = s.create_rect(a, pos, size, color);
    let updated = created.update_rect(a, new_pos, new_size, new_color);
    let removed = updated.remove_rect(a);
    let id = s.rects.next_index() as usize;
    if s.rects.free.len() > 0 {
        assert(s.rects.free.last() == s.rects.free[s.rects.free.len() - 1]);
    }
    assert(removed.frame.quads =~= s.frame.quads + seq![
        QuadMessage::Create { pos, size, color },
        QuadMessage::Update { id, pos: new_pos, size: new_size, color: new_color },
        QuadMessage::Remove { id },
    ]);
}

/// The initial state is reachable.
pub proof fn lemma_initial_inv()
    ensures
        ProducerState::initial().inv(),
{
    let s = ProducerState::initial();
    lemma_empty_tracker_has_empty_slots(0);
    lemma_empty_tracker_has_empty_slots(1);
    assert(s.quad_history() =~= Seq::empty());
    assert(s.triangle_history() =~= Seq::empty());
}

/// Applying one more quad command that the slots accept extends the replay
/// by that command.
proof fn lemma_replay_one_more_quad(history: Seq<QuadMessage>, m: QuadMessage, slots: SlotsView)
    requires
        replay_quads(history) == Some(slots),
        accepts_quad(slots, m),
    ensures
        replay_quads(history.push(m)) == Some(apply_quad(slots, m)),
{
    assert(history.push(m).drop_last() =~= history);
}

/// Applying one more triangle command that the slots accept extends the
/// replay by that command.
proof fn lemma_replay_one_more_triangle(
    history: Seq<TriangleMessage>,
    m: TriangleMessage,
    slots: SlotsView,
)
    requires
        replay_triangles(history) == Some(slots),
        accepts_triangle(slots, m),
    ensures
        replay_triangles(history.push(m)) == Some(apply_triangle(slots, m)),
{
    assert(history.push(m).drop_last() =~= history);
}

/// Every call on the quads keeps a reachable state reachable.
pub proof fn lemma_quad_calls_keep_inv(
    s: ProducerState,
    t: IndexToken,
    pos: Vector2Bits,
    size: Vector2Bits,
    color: RGBA8,
)
    requires
        s.inv(),
    ensures
        !s.rects.issued.contains(t) && t.namespace() == 0 && s.rects.count < usize::MAX
            ==> s.create_rect(t, pos, size, color).inv(),
        s.rects.live.contains_key(t) ==> s.update_rect(t, pos, size, color).inv(),
        s.rects.live.contains_key(t) ==> s.remove_rect(t).inv(),
{
    let h = s.quad_history();
    if !s.rects.issued.contains(t) && t.namespace() == 0 && s.rects.count < usize::MAX {
        let after = s.create_rect(t, pos, size, color);
        let m = QuadMessage::Create { pos, size, color };
        lemma_add_keeps_inv(s.rects, t);
        lemma_add_matches_create(s.rects, t);
        lemma_replay_one_more_quad(h, m, s.rects.slots());
        assert(after.quad_history() =~= h.push(m));
    }
    if s.rects.live.contains_key(t) {
        lemma_remove_keeps_inv(s.rects, t);
        lemma_remove_matches_release(s.rects, t);
        let id = s.rects.live[t] as usize;
        let updated = s.update_rect(t, pos, size, color);
        let m = QuadMessage::Update { id, pos, size, color };
        lemma_replay_one_more_quad(h, m, s.rects.slots());
        assert(updated.quad_history() =~= h.push(m));
        let removed = s.remove_rect(t);
        let r = QuadMessage::Remove { id };
        lemma_replay_one_more_quad(h, r, s.rects.slots());
        assert(removed.quad_history() =~= h.push(r));
    }
}

/// Every call on the triangles keeps a reachable state reachable.
pub proof fn lemma_triangle_calls_keep_inv(
    s: ProducerState,
    t: IndexToken,
    pos: Vector2Bits,
    height: u32,
    color: RGBA8,
)
    requires
        s.inv(),
    ensures
        !s.triangles.issued.contains(t) && t.namespace() == 1 && s.triangles.count < usize::MAX
            ==> s.create_triangle(t, pos, height, color).inv(),
        s.triangles.live.contains_key(t) ==> s.update_triangle(t, pos, height, color).inv(),
        s.triangles.live.contains_key(t) ==> s.remove_triangle(t).inv(),
{
    let h = s.triangle_history();
    if !s.triangles.issued.contains(t) && t.namespace() == 1 && s.triangles.count < usize::MAX {
        let after = s.create_triangle(t, pos, height, color);
        let m = TriangleMessage::Create { pos, height, color };
        lemma_add_keeps_inv(s.triangles, t);
        lemma_add_matches_create(s.triangles, t);
        lemma_replay_one_more_triangle(h, m, s.triangles.slots());
        assert(after.triangle_history() =~= h.push(m));
    }
    if s.triangles.live.contains_key(t) {
        lemma_remove_keeps_inv(s.triangles, t);
        lemma_remove_matches_release(s.triangles, t);
        let id = s.triangles.live[t] as usize;
        let updated = s.update_triangle(t, pos, height, color);
        let m = TriangleMessage::Update { id, pos, height, color };
        lemma_replay_one_more_triangle(h, m, s.triangles.slots());
        assert(updated.triangle_history() =~= h.push(m));
        let removed = s.remove_triangle(t);
        let r = TriangleMessage::Remove { id };
        lemma_replay_one_more_triangle(h, r, s.triangles.slots());
        assert(removed.triangle_history() =~= h.push(r));
    }
}

/// Setting the translation and publishing the frame keep a reachable state
/// reachable.
pub proof fn lemma_frame_calls_keep_inv(s: ProducerState, translation: Vector3Bits)
    requires
        s.inv(),
    ensures
        s.set_translation(translation).inv(),
        s.send().inv(),
{
    let sent = s.send();
    assert(s.sent.push(s.frame).drop_last() =~= s.sent);
    assert(sent.quad_history() =~= s.quad_history());
    assert(sent.triangle_history() =~= s.triangle_history());
}

/// The render side can follow the quads by indices alone: each quad command
/// that a call appends is one it can apply to the slots it holds, and applying
/// it leaves there exactly the slots that the live quad tokens occupy. So no
/// update or removal ever names a slot whose creation was not appended before.
pub proof fn lemma_quad_commands_match_slots(
    s: ProducerState,
    t: IndexToken,
    pos: Vector2Bits,
    size: Vector2Bits,
    color: RGBA8,
)
    requires
        s.inv(),
    ensures
        !s.rects.issued.contains(t) ==> ({
            let after = s.create_rect(t, pos, size, color);
            &&& accepts_quad(s.rects.slots(), after.frame.quads.last())
            &&& apply_quad(s.rects.slots(), after.frame.quads.last()) == after.rects.slots()
        }),
        s.rects.live.contains_key(t) ==> ({
            let after = s.update_rect(t, pos, size, color);
            &&& accepts_quad(s.rects.slots(), after.frame.quads.last())
            &&& apply_quad(s.rects.slots(), after.frame.quads.last()) == after.rects.slots()
        }),
        s.rects.live.contains_key(t) ==> ({
            let after = s.remove_rect(t);
            &&& accepts_quad(s.rects.slots(), after.frame.quads.last())
            &&& apply_quad(s.rects.slots(), after.frame.quads.last()) == after.rects.slots()
        }),
{
    if !s.rects.issued.contains(t) {
        lemma_add_matches_create(s.rects, t);
    }
    if s.rects.live.contains_key(t) {
        lemma_remove_matches_release(s.rects, t);
    }
}

/// The render side can follow the triangles by indices alone, as it can the
/// quads.
pub proof fn lemma_triangle_commands_match_slots(
    s: ProducerState,
    t: IndexToken,
    pos: Vector2Bits,
    height: u32,
    color: RGBA8,
)
    requires
        s.inv(),
    ensures
        !s.triangles.issued.contains(t) ==> ({
            let after = s.create_triangle(t, pos, height, color);
            &&& accepts_triangle(s.triangles.slots(), after.frame.triangles.last())
            &&& apply_triangle(s.triangles.slots(), after.frame.triangles.last())
                == after.triangles.slots()
        }),
        s.triangles.live.contains_key(t) ==> ({
            let after = s.update_triangle(t, pos, height, color);
            &&& accepts_triangle(s.triangles.slots(), after.frame.triangles.last())
            &&& apply_triangle(s.triangles.slots(), after.frame.triangles.last())
                == after.triangles.slots()
        }),
        s.triangles.live.contains_key(t) ==> ({
            let after = s.remove_triangle(t);
            &&& accepts_triangle(s.triangles.slots(), after.frame.triangles.last())
            &&& apply_triangle(s.triangles.slots(), after.frame.triangles.last())
                == after.triangles.slots()
        }),
{
    if !s.triangles.issued.contains(t) {
        lemma_add_matches_create(s.triangles, t);
    }
    if s.triangles.live.contains_key(t) {
        lemma_remove_matches_release(s.triangles, t);
    }
}

/// The tokens of the two kinds never mix: a token issued for a quad is not a
/// live triangle token, and a token issued for a triangle is not a live quad
/// token.
pub proof fn lemma_kinds_do_not_mix(s: ProducerState, t: IndexToken)
    requires
        s.inv(),
    ensures
        s.rects.issued.contains(t) ==> !s.triangles.live.contains_key(t),
        s.triangles.issued.contains(t) ==> !s.rects.live.contains_key(t),
{
}

/// Frames are published in the order of the sends, each exactly once: after
/// one send per frame, the frames sent are those sent before followed by
/// these frames in the same order.
pub proof fn lemma_sends_keep_order(s: ProducerState, frames: Seq<FrameView>)
    ensures
        s.send_each(frames).sent == s.sent + frames,
        s.send_each(frames).sent.len() == s.sent.len() + frames.len(),
        s.send_each(frames).rects == s.rects,
        s.send_each(frames).triangles == s.triangles,
    decreases frames.len(),
{
    if frames.len() > 0 {
        lemma_sends_keep_order(s, frames.drop_last());
        assert(frames =~= frames.drop_last().push(frames.last()));
        assert(s.send_each(frames).sent =~= s.sent + frames);
    } else {
        assert(s.sent + frames =~= s.sent);
    }
}

} // verus!
