use vstd::prelude::*;

verus! {

/// The annotation tool currently picked in the toolbar.
#[derive(Clone, Copy, Debug, PartialEq, Eq, Structural)]
pub enum SelectionAnnotation {
    NotSelected,
    Pen,
    Rect,
    Arrow,
    Text,
    Crop,
    Line,
    Circle,
}

impl SelectionAnnotation {
    /// Tools whose marks are drawn by dragging the pointer.
    pub open spec fn is_stroke_tool(self) -> bool {
        match self {
            SelectionAnnotation::Pen | SelectionAnnotation::Rect | SelectionAnnotation::Arrow
            | SelectionAnnotation::Line | SelectionAnnotation::Circle => true,
            _ => false,
        }
    }

    /// Tools whose completed marks can be undone.
    pub open spec fn is_undoable(self) -> bool {
        self.is_stroke_tool() || self == SelectionAnnotation::Text
    }
}

/// A position on the canvas, in whole units of the caller's choosing.
#[derive(Clone, Copy, Debug, PartialEq, Eq, Structural)]
pub struct Point {
    pub x: i32,
    pub y: i32,
}

/// How a mark is drawn: a line width in hundredths of a point, and an RGBA
/// colour packed as 0xRRGGBBAA.
#[derive(Clone, Copy, Debug, PartialEq, Eq, Structural)]
pub struct Stroke {
    pub width: u32,
    pub color: u32,
}

pub open spec fn default_stroke() -> Stroke {
    Stroke { width: 100, color: 0x000000ff }
}

/// The text a new text box starts with.
pub open spec fn placeholder_text() -> Seq<char> {
    "Edit this text"@
}

/// What the annotation store holds. For each stroke tool, a list of strokes
/// whose last entry is the stroke in progress; every earlier entry is sealed.
pub struct AnnotationView {
    pub stroke: Stroke,
    pub pen: Seq<Seq<(Point, Stroke)>>,
    pub rect: Seq<Seq<(Point, Stroke)>>,
    pub circle: Seq<Seq<(Point, Stroke)>>,
    pub arrow: Seq<Seq<(Point, Stroke)>>,
    pub line: Seq<Seq<(Point, Stroke)>>,
    pub text: Seq<(Point, Seq<char>, Stroke)>,
    pub staged: Seq<char>,
    pub pending: bool,
    pub log: Seq<SelectionAnnotation>,
}

impl AnnotationView {
    pub open spec fn strokes(self, t: SelectionAnnotation) -> Seq<Seq<(Point, Stroke)>> {
        match t {
            SelectionAnnotation::Pen => self.pen,
            SelectionAnnotation::Rect => self.rect,
            SelectionAnnotation::Circle => self.circle,
            SelectionAnnotation::Arrow => self.arrow,
            SelectionAnnotation::Line => self.line,
            _ => Seq::empty(),
        }
    }

    pub open spec fn with_strokes(self, t: SelectionAnnotation, s: Seq<Seq<(Point, Stroke)>>) -> Self {
        match t {
            SelectionAnnotation::Pen => AnnotationView { pen: s, ..self },
            SelectionAnnotation::Rect => AnnotationView { rect: s, ..self },
            SelectionAnnotation::Circle => AnnotationView { circle: s, ..self },
            SelectionAnnotation::Arrow => AnnotationView { arrow: s, ..self },
            SelectionAnnotation::Line => AnnotationView { line: s, ..self },
            _ => self,
        }
    }
}

pub open spec fn seqs_of(v: Seq<Vec<(Point, Stroke)>>) -> Seq<Seq<(Point, Stroke)>> {
    v.map_values(|x: Vec<(Point, Stroke)>| x@)
}

/// A stroke list with its in-progress slot created if it was missing.
pub open spec fn with_placeholder(s: Seq<Seq<(Point, Stroke)>>) -> Seq<Seq<(Point, Stroke)>> {
    if s.len() == 0 {
        seq![Seq::empty()]
    } else {
        s
    }
}

/// Whether a frame seals the stroke in progress: the pointer is released
/// while that stroke holds at least one point.
pub open spec fn seals(s: Seq<Seq<(Point, Stroke)>>, sample: Option<(Point, Stroke)>) -> bool {
    sample is None && with_placeholder(s).last().len() > 0
}

/// One frame of pointer input for a stroke tool: a pressed pointer adds its
/// sample unless it repeats the last one; a released pointer seals a
/// non-empty stroke in progress and opens a new, empty one.
pub open spec fn accumulate(s: Seq<Seq<(Point, Stroke)>>, sample: Option<(Point, Stroke)>) -> Seq<
    Seq<(Point, Stroke)>,
> {
    let s1 = with_placeholder(s);
    let cur = s1.last();
    match sample {
        Some(x) => if cur.len() > 0 && cur.last() == x {
            s1
        } else {
            s1.update(s1.len() - 1, cur.push(x))
        },
        None => if cur.len() > 0 {
            s1.push(Seq::empty())
        } else {
            s1
        },
    }
}

pub open spec fn sample_of(pointer: Option<Point>, stroke: Stroke) -> Option<(Point, Stroke)> {
    match pointer {
        Some(p) => Some((p, stroke)),
        None => None,
    }
}

/// The store after one frame in which `tool` is picked and the pointer is
/// pressed over the canvas at `pointer`, or not pressed (`None`).
pub open spec fn pointer_step(v: AnnotationView, tool: SelectionAnnotation, pointer: Option<Point>) -> AnnotationView {
    if !tool.is_stroke_tool() {
        v
    } else {
        let sample = sample_of(pointer, v.stroke);
        let s = v.strokes(tool);
        let v1 = v.with_strokes(tool, accumulate(s, sample));
        if seals(s, sample) {
            AnnotationView { log: v1.log.push(tool), ..v1 }
        } else {
            v1
        }
    }
}

/// The store after undoing the most recent completed mark: the last sealed
/// stroke of its tool goes (the stroke in progress stays), or the last text box.
pub open spec fn undo_step(v: AnnotationView) -> AnnotationView {
    if v.log.len() == 0 {
        v
    } else {
        let t = v.log.last();
        let v1 = AnnotationView { log: v.log.drop_last(), ..v };
        if t.is_stroke_tool() {
            let s = v.strokes(t);
            if s.len() >= 2 {
                v1.with_strokes(t, s.remove(s.len() - 2))
            } else {
                v1
            }
        } else if t == SelectionAnnotation::Text && v.text.len() > 0 {
            AnnotationView { text: v.text.drop_last(), ..v1 }
        } else {
            v1
        }
    }
}

/// The store after a staged text box is committed at `anchor`, if one is pending.
pub open spec fn commit_step(v: AnnotationView, anchor: Point) -> AnnotationView {
    if v.pending {
        AnnotationView {
            text: v.text.push((anchor, v.staged, v.stroke)),
            log: v.log.push(SelectionAnnotation::Text),
            staged: placeholder_text(),
            pending: false,
            ..v
        }
    } else {
        v
    }
}

/// The store with every mark and the undo log cleared.
pub open spec fn cleared(v: AnnotationView) -> AnnotationView {
    AnnotationView {
        pen: Seq::empty(),
        rect: Seq::empty(),
        circle: Seq::empty(),
        arrow: Seq::empty(),
        line: Seq::empty(),
        text: Seq::empty(),
        log: Seq::empty(),
        ..v
    }
}

/// How many entries of the undo log name tool `t`.
pub open spec fn count_tool(log: Seq<SelectionAnnotation>, t: SelectionAnnotation) -> nat
    decreases log.len(),
{
    if log.len() == 0 {
        0
    } else {
        count_tool(log.drop_last(), t) + if log.last() == t {
            1nat
        } else {
            0nat
        }
    }
}

/// The sealed strokes of a stroke list: all but the one in progress.
pub open spec fn sealed(s: Seq<Seq<(Point, Stroke)>>) -> Seq<Seq<(Point, Stroke)>> {
    if s.len() == 0 {
        s
    } else {
        s.drop_last()
    }
}

/// Every sealed stroke holds at least one point, and the undo log names the
/// tool once per sealed stroke.
pub open spec fn tool_wf(v: AnnotationView, t: SelectionAnnotation) -> bool {
    &&& forall|i: int| 0 <= i < sealed(v.strokes(t)).len() ==> (#[trigger] v.strokes(t)[i]).len() > 0
    &&& count_tool(v.log, t) == sealed(v.strokes(t)).len()
}

pub open spec fn store_wf(v: AnnotationView) -> bool {
    &&& tool_wf(v, SelectionAnnotation::Pen)
    &&& tool_wf(v, SelectionAnnotation::Rect)
    &&& tool_wf(v, SelectionAnnotation::Circle)
    &&& tool_wf(v, SelectionAnnotation::Arrow)
    &&& tool_wf(v, SelectionAnnotation::Line)
    &&& count_tool(v.log, SelectionAnnotation::Text) == v.text.len()
    &&& forall|i: int| 0 <= i < v.log.len() ==> (#[trigger] v.log[i]).is_undoable()
}

/// Runs one frame of pointer input on a stroke list; returns whether it sealed
/// the stroke in progress.
fn accumulate_stroke(strokes: &mut Vec<Vec<(Point, Stroke)>>, sample: Option<(Point, Stroke)>) -> (sealed: bool)
    ensures
        seqs_of(final(strokes)@) == accumulate(seqs_of(old(strokes)@), sample),
        sealed == seals(seqs_of(old(strokes)@), sample),
{
    let ghost s0 = seqs_of(strokes@);
    if strokes.len() == 0 {
        strokes.push(Vec::new());
        assert(seqs_of(strokes@) =~= with_placeholder(s0));
    }
    assert(seqs_of(strokes@) == with_placeholder(s0));
    let n = strokes.len();
    let cur_len = strokes[n - 1].len();
    match sample {
        Some(x) => {
            let repeated = if cur_len > 0 {
                let last = strokes[n - 1][cur_len - 1];
                last.0 == x.0 && last.1 == x.1
            } else {
                false
            };
            if !repeated {
                let ghost before = strokes@;
                strokes[n - 1].push(x);
                assert(seqs_of(strokes@) =~= seqs_of(before).update(n - 1, before[n - 1]@.push(x)));
            }
            false
        },
        None => {
            if cur_len > 0 {
                let ghost before = strokes@;
                strokes.push(Vec::new());
                assert(seqs_of(strokes@) =~= seqs_of(before).push(Seq::empty()));
                true
            } else {
                false
            }
        },
    }
}


proof fn lemma_count_push(log: Seq<SelectionAnnotation>, x: SelectionAnnotation, t: SelectionAnnotation)
    ensures
        count_tool(log.push(x), t) == count_tool(log, t) + if x == t {
            1nat
        } else {
            0nat
        },
{
    assert(log.push(x).drop_last() =~= log);
}

proof fn lemma_count_drop_last(log: Seq<SelectionAnnotation>, t: SelectionAnnotation)
    requires
        log.len() > 0,
    ensures
        count_tool(log, t) == count_tool(log.drop_last(), t) + if log.last() == t {
            1nat
        } else {
            0nat
        },
{
}

proof fn lemma_accumulate(s: Seq<Seq<(Point, Stroke)>>, sample: Option<(Point, Stroke)>)
    ensures
        ({
            let r = accumulate(s, sample);
            &&& (forall|i: int| 0 <= i < sealed(s).len() ==> (#[trigger] s[i]).len() > 0) ==> (forall|
                i: int,
            | 0 <= i < sealed(r).len() ==> (#[trigger] r[i]).len() > 0)
            &&& sealed(r).len() == sealed(s).len() + if seals(s, sample) {
                1nat
            } else {
                0nat
            }
            &&& sealed(r) == if seals(s, sample) {
                with_placeholder(s)
            } else {
                sealed(s)
            }
        }),
{
    let s1 = with_placeholder(s);
    let r = accumulate(s, sample);
    assert(sealed(s1) =~= sealed(s));
    match sample {
        Some(x) => {
            assert(sealed(r) =~= sealed(s1));
        },
        None => {
            if s1.last().len() > 0 {
                assert(sealed(r) =~= s1);
            }
        },
    }
}

proof fn lemma_pointer_step_wf(v: AnnotationView, tool: SelectionAnnotation, pointer: Option<Point>)
    requires
        store_wf(v),
    ensures
        store_wf(pointer_step(v, tool, pointer)),
{
    if tool.is_stroke_tool() {
        let w = pointer_step(v, tool, pointer);
        let sample = sample_of(pointer, v.stroke);
        lemma_accumulate(v.strokes(tool), sample);
        let others = seq![
            SelectionAnnotation::Pen,
            SelectionAnnotation::Rect,
            SelectionAnnotation::Circle,
            SelectionAnnotation::Arrow,
            SelectionAnnotation::Line,
            SelectionAnnotation::Text,
        ];
        if seals(v.strokes(tool), sample) {
            assert forall|k: int| 0 <= k < others.len() implies count_tool(w.log, #[trigger] others[k])
                == count_tool(v.log, others[k]) + if others[k] == tool {
                1nat
            } else {
                0nat
            } by {
                lemma_count_push(v.log, tool, others[k]);
            }
            assert forall|i: int| 0 <= i < w.log.len() implies (#[trigger] w.log[i]).is_undoable() by {
                if i < v.log.len() {
                    assert(w.log[i] == v.log[i]);
                }
            }
        }
        assert(others[0] == SelectionAnnotation::Pen);
        assert(others[1] == SelectionAnnotation::Rect);
        assert(others[2] == SelectionAnnotation::Circle);
        assert(others[3] == SelectionAnnotation::Arrow);
        assert(others[4] == SelectionAnnotation::Line);
        assert(others[5] == SelectionAnnotation::Text);
    }
}

proof fn lemma_remove_second_last(s: Seq<Seq<(Point, Stroke)>>)
    requires
        s.len() >= 2,
        forall|i: int| 0 <= i < sealed(s).len() ==> (#[trigger] s[i]).len() > 0,
    ensures
        ({
            let r = s.remove(s.len() - 2);
            &&& forall|i: int| 0 <= i < sealed(r).len() ==> (#[trigger] r[i]).len() > 0
            &&& sealed(r) == sealed(s).drop_last()
        }),
{
    let r = s.remove(s.len() - 2);
    assert(sealed(r) =~= sealed(s).drop_last());
    assert forall|i: int| 0 <= i < sealed(r).len() implies (#[trigger] r[i]).len() > 0 by {
        assert(r[i] == s[i]);
    }
}

proof fn lemma_undo_step_wf(v: AnnotationView)
    requires
        store_wf(v),
    ensures
        store_wf(undo_step(v)),
{
    if v.log.len() > 0 {
        let t = v.log.last();
        let w = undo_step(v);
        assert(v.log[v.log.len() - 1].is_undoable());
        lemma_count_drop_last(v.log, SelectionAnnotation::Pen);
        lemma_count_drop_last(v.log, SelectionAnnotation::Rect);
        lemma_count_drop_last(v.log, SelectionAnnotation::Circle);
        lemma_count_drop_last(v.log, SelectionAnnotation::Arrow);
        lemma_count_drop_last(v.log, SelectionAnnotation::Line);
        lemma_count_drop_last(v.log, SelectionAnnotation::Text);
        if t.is_stroke_tool() {
            lemma_remove_second_last(v.strokes(t));
        }
        assert(w.log =~= v.log.drop_last());
    }
}

proof fn lemma_commit_step_wf(v: AnnotationView, anchor: Point)
    requires
        store_wf(v),
    ensures
        store_wf(commit_step(v, anchor)),
{
    if v.pending {
        let w = commit_step(v, anchor);
        lemma_count_push(v.log, SelectionAnnotation::Text, SelectionAnnotation::Pen);
        lemma_count_push(v.log, SelectionAnnotation::Text, SelectionAnnotation::Rect);
        lemma_count_push(v.log, SelectionAnnotation::Text, SelectionAnnotation::Circle);
        lemma_count_push(v.log, SelectionAnnotation::Text, SelectionAnnotation::Arrow);
        lemma_count_push(v.log, SelectionAnnotation::Text, SelectionAnnotation::Line);
        lemma_count_push(v.log, SelectionAnnotation::Text, SelectionAnnotation::Text);
        assert forall|i: int| 0 <= i < w.log.len() implies (#[trigger] w.log[i]).is_undoable() by {
            if i < v.log.len() {
                assert(w.log[i] == v.log[i]);
            }
        }
    }
}


/// The marks drawn on a captured image and the log that undo walks back.
pub struct AnnotationElement {
    stroke: Stroke,
    pen: Vec<Vec<(Point, Stroke)>>,
    rect: Vec<Vec<(Point, Stroke)>>,
    circle: Vec<Vec<(Point, Stroke)>>,
    arrow: Vec<Vec<(Point, Stroke)>>,
    line: Vec<Vec<(Point, Stroke)>>,
    text: Vec<(Point, String, Stroke)>,
    text2: String,
    pos_text: bool,
    last_modify: Vec<SelectionAnnotation>,
}

impl View for AnnotationElement {
    type V = AnnotationView;

    closed spec fn view(&self) -> AnnotationView {
        AnnotationView {
            stroke: self.stroke,
            pen: seqs_of(self.pen@),
            rect: seqs_of(self.rect@),
            circle: seqs_of(self.circle@),
            arrow: seqs_of(self.arrow@),
            line: seqs_of(self.line@),
            text: self.text@.map_values(|e: (Point, String, Stroke)| (e.0, e.1@, e.2)),
            staged: self.text2@,
            pending: self.pos_text,
            log: self.last_modify@,
        }
    }
}

pub open spec fn empty_store() -> AnnotationView {
    AnnotationView {
        stroke: default_stroke(),
        pen: Seq::empty(),
        rect: Seq::empty(),
        circle: Seq::empty(),
        arrow: Seq::empty(),
        line: Seq::empty(),
        text: Seq::empty(),
        staged: placeholder_text(),
        pending: false,
        log: Seq::empty(),
    }
}

impl AnnotationElement {
    pub open spec fn wf(&self) -> bool {
        store_wf(self@)
    }

    pub fn new() -> (r: Self)
        ensures
            r@ == empty_store(),
            r.wf(),
    {
        let r = AnnotationElement {
            stroke: Stroke { width: 100, color: 0x000000ff },
            pen: Vec::new(),
            rect: Vec::new(),
            circle: Vec::new(),
            arrow: Vec::new(),
            line: Vec::new(),
            text: Vec::new(),
            text2: "Edit this text".to_owned(),
            pos_text: false,
            last_modify: Vec::new(),
        };
        proof {
            assert(r@.pen =~= Seq::empty());
            assert(r@.rect =~= Seq::empty());
            assert(r@.circle =~= Seq::empty());
            assert(r@.arrow =~= Seq::empty());
            assert(r@.line =~= Seq::empty());
            assert(r@.text =~= Seq::empty());
        }
        r
    }

    /// One frame of pointer input while `tool` is picked: `pointer` is where the
    /// pointer is pressed over the canvas, or `None` when it is not.
    pub fn pointer_update(&mut self, tool: SelectionAnnotation, pointer: Option<Point>)
        requires
            old(self).wf(),
        ensures
            final(self)@ == pointer_step(old(self)@, tool, pointer),
            final(self).wf(),
    {
        let sample = match pointer {
            Some(p) => Some((p, self.stroke)),
            None => None,
        };
        let sealed = match tool {
            SelectionAnnotation::Pen => accumulate_stroke(&mut self.pen, sample),
            SelectionAnnotation::Rect => accumulate_stroke(&mut self.rect, sample),
            SelectionAnnotation::Circle => accumulate_stroke(&mut self.circle, sample),
            SelectionAnnotation::Arrow => accumulate_stroke(&mut self.arrow, sample),
            SelectionAnnotation::Line => accumulate_stroke(&mut self.line, sample),
            _ => false,
        };
        if sealed {
            self.last_modify.push(tool);
        }
        proof {
            lemma_pointer_step_wf(old(self)@, tool, pointer);
            assert(self@ =~= pointer_step(old(self)@, tool, pointer));
        }
    }

    /// Undoes the most recent completed mark; does nothing when the log is empty.
    pub fn undo(&mut self)
        requires
            old(self).wf(),
        ensures
            final(self)@ == undo_step(old(self)@),
            final(self).wf(),
    {
        if let Some(last) = self.last_modify.pop() {
            match last {
                SelectionAnnotation::Pen => {
                    let n = self.pen.len();
                    if n >= 2 {
                        self.pen.remove(n - 2);
                    }
                },
                SelectionAnnotation::Rect => {
                    let n = self.rect.len();
                    if n >= 2 {
                        self.rect.remove(n - 2);
                    }
                },
                SelectionAnnotation::Circle => {
                    let n = self.circle.len();
                    if n >= 2 {
                        self.circle.remove(n - 2);
                    }
                },
                SelectionAnnotation::Arrow => {
                    let n = self.arrow.len();
                    if n >= 2 {
                        self.arrow.remove(n - 2);
                    }
                },
                SelectionAnnotation::Line => {
                    let n = self.line.len();
                    if n >= 2 {
                        self.line.remove(n - 2);
                    }
                },
                SelectionAnnotation::Text => {
                    self.text.pop();
                },
                _ => {},
            }
        }
        proof {
            lemma_undo_step_wf(old(self)@);
            let v = old(self)@;
            if v.log.len() > 0 {
                let t = v.log.last();
                if t.is_stroke_tool() && v.strokes(t).len() >= 2 {
                    let n = v.strokes(t).len();
                    assert(v.strokes(t).remove(n - 2) =~= self@.strokes(t));
                }
                if t == SelectionAnnotation::Text && v.text.len() > 0 {
                    assert(self@.text =~= v.text.drop_last());
                }
            }
            assert(self@ =~= undo_step(old(self)@));
        }
    }

    /// Drops every mark and the undo log.
    pub fn clear(&mut self)
        ensures
            final(self)@ == cleared(old(self)@),
            final(self).wf(),
    {
        self.pen.clear();
        self.rect.clear();
        self.circle.clear();
        self.arrow.clear();
        self.line.clear();
        self.text.clear();
        self.last_modify.clear();
        assert(self@.pen =~= Seq::empty());
        assert(self@.rect =~= Seq::empty());
        assert(self@.circle =~= Seq::empty());
        assert(self@.arrow =~= Seq::empty());
        assert(self@.line =~= Seq::empty());
        assert(self@.text =~= Seq::empty());
    }

    /// Asks for the staged text to be committed on the next frame, once the
    /// position of its box is known.
    pub fn request_text_commit(&mut self)
        ensures
            final(self)@ == (AnnotationView { pending: true, ..old(self)@ }),
    {
        self.pos_text = true;
    }

    /// Commits the staged text at `anchor` if a commit was asked for; returns
    /// whether it did.
    pub fn commit_text(&mut self, anchor: Point) -> (r: bool)
        requires
            old(self).wf(),
        ensures
            r == old(self)@.pending,
            final(self)@ == commit_step(old(self)@, anchor),
            final(self).wf(),
    {
        if self.pos_text {
            self.pos_text = false;
            let ghost before = self@;
            let staged = self.text2.clone();
            self.text.push((anchor, staged, self.stroke));
            self.last_modify.push(SelectionAnnotation::Text);
            self.text2 = "Edit this text".to_owned();
            proof {
                assert(self@.text =~= before.text.push((anchor, before.staged, before.stroke)));
                lemma_commit_step_wf(old(self)@, anchor);
                assert(self@ =~= commit_step(old(self)@, anchor));
            }
            true
        } else {
            false
        }
    }

    pub fn stroke(&self) -> (r: Stroke)
        ensures
            r == self@.stroke,
    {
        self.stroke
    }

    pub fn set_stroke(&mut self, stroke: Stroke)
        ensures
            final(self)@ == (AnnotationView { stroke, ..old(self)@ }),
    {
        self.stroke = stroke;
    }

    pub fn staged_text(&self) -> (r: &String)
        ensures
            r@ == self@.staged,
    {
        &self.text2
    }

    pub fn set_staged_text(&mut self, text: String)
        ensures
            final(self)@ == (AnnotationView { staged: text@, ..old(self)@ }),
    {
        self.text2 = text;
    }

    /// The strokes of a stroke tool, the one in progress last.
    pub fn strokes(&self, tool: SelectionAnnotation) -> (r: Option<&Vec<Vec<(Point, Stroke)>>>)
        ensures
            tool.is_stroke_tool() ==> r is Some && seqs_of(r->0@) == self@.strokes(tool),
            !tool.is_stroke_tool() ==> r is None,
    {
        match tool {
            SelectionAnnotation::Pen => Some(&self.pen),
            SelectionAnnotation::Rect => Some(&self.rect),
            SelectionAnnotation::Circle => Some(&self.circle),
            SelectionAnnotation::Arrow => Some(&self.arrow),
            SelectionAnnotation::Line => Some(&self.line),
            _ => None,
        }
    }

    pub fn texts(&self) -> (r: &Vec<(Point, String, Stroke)>)
        ensures
            r@.map_values(|e: (Point, String, Stroke)| (e.0, e.1@, e.2)) == self@.text,
    {
        &self.text
    }

    pub fn undo_log(&self) -> (r: &Vec<SelectionAnnotation>)
        ensures
            r@ == self@.log,
    {
        &self.last_modify
    }
}


/// One input to the annotation store, for stating what a run of inputs does.
pub enum StoreEvent {
    Pointer(SelectionAnnotation, Option<Point>),
    RequestText,
    CommitText(Point),
}

pub open spec fn apply_event(v: AnnotationView, e: StoreEvent) -> AnnotationView {
    match e {
        StoreEvent::Pointer(t, p) => pointer_step(v, t, p),
        StoreEvent::RequestText => AnnotationView { pending: true, ..v },
        StoreEvent::CommitText(anchor) => commit_step(v, anchor),
    }
}

pub open spec fn run_events(v: AnnotationView, evs: Seq<StoreEvent>) -> AnnotationView
    decreases evs.len(),
{
    if evs.len() == 0 {
        v
    } else {
        apply_event(run_events(v, evs.drop_last()), evs.last())
    }
}

pub open spec fn undo_times(v: AnnotationView, n: nat) -> AnnotationView
    decreases n,
{
    if n == 0 {
        v
    } else {
        undo_times(undo_step(v), (n - 1) as nat)
    }
}

/// Two stores hold the same completed marks: the same sealed strokes for every
/// tool, the same text boxes and the same undo log.
pub open spec fn same_marks(a: AnnotationView, b: AnnotationView) -> bool {
    &&& sealed(a.pen) == sealed(b.pen)
    &&& sealed(a.rect) == sealed(b.rect)
    &&& sealed(a.circle) == sealed(b.circle)
    &&& sealed(a.arrow) == sealed(b.arrow)
    &&& sealed(a.line) == sealed(b.line)
    &&& a.text == b.text
    &&& a.log == b.log
}

proof fn lemma_sealed_remove_second_last(s: Seq<Seq<(Point, Stroke)>>)
    requires
        s.len() >= 2,
    ensures
        sealed(s.remove(s.len() - 2)) == sealed(s).drop_last(),
{
    assert(sealed(s.remove(s.len() - 2)) =~= sealed(s).drop_last());
}

proof fn lemma_undo_step_same_marks(x: AnnotationView, y: AnnotationView)
    requires
        same_marks(x, y),
    ensures
        same_marks(undo_step(x), undo_step(y)),
{
    if x.log.len() > 0 {
        let t = x.log.last();
        if t.is_stroke_tool() {
            let sx = x.strokes(t);
            let sy = y.strokes(t);
            if sx.len() >= 2 {
                lemma_sealed_remove_second_last(sx);
            }
            if sy.len() >= 2 {
                lemma_sealed_remove_second_last(sy);
            }
        }
    }
}

proof fn lemma_undo_times_same_marks(x: AnnotationView, y: AnnotationView, n: nat)
    requires
        same_marks(x, y),
    ensures
        same_marks(undo_times(x, n), undo_times(y, n)),
    decreases n,
{
    if n > 0 {
        lemma_undo_step_same_marks(x, y);
        lemma_undo_times_same_marks(undo_step(x), undo_step(y), (n - 1) as nat);
    }
}

/// An input either leaves the completed marks as they were, or completes one
/// mark that a single undo takes back.
proof fn lemma_event_then_undo(u: AnnotationView, e: StoreEvent)
    ensures
        ({
            let w = apply_event(u, e);
            ||| w.log == u.log && same_marks(w, u)
            ||| w.log.len() == u.log.len() + 1 && same_marks(undo_step(w), u)
        }),
{
    let w = apply_event(u, e);
    match e {
        StoreEvent::Pointer(t, p) => {
            if t.is_stroke_tool() {
                let sample = sample_of(p, u.stroke);
                let s = u.strokes(t);
                lemma_accumulate(s, sample);
                assert(sealed(with_placeholder(s)) =~= sealed(s));
                if seals(s, sample) {
                    let r = accumulate(s, sample);
                    assert(w.log.last() == t);
                    assert(w.log.drop_last() =~= u.log);
                    lemma_sealed_remove_second_last(r);
                    assert(sealed(r).drop_last() =~= sealed(s));
                }
            }
        },
        StoreEvent::RequestText => {},
        StoreEvent::CommitText(anchor) => {
            if u.pending {
                assert(w.log.drop_last() =~= u.log);
                assert(w.text.drop_last() =~= u.text);
            }
        },
    }
}

/// A stroke list with no drag in progress: empty, or ending in an empty slot.
pub open spec fn at_rest(s: Seq<Seq<(Point, Stroke)>>) -> bool {
    s.len() == 0 || s.last().len() == 0
}

proof fn lemma_undo_times_rest(x: AnnotationView, n: nat, t: SelectionAnnotation)
    requires
        t.is_stroke_tool(),
        at_rest(x.strokes(t)),
    ensures
        at_rest(undo_times(x, n).strokes(t)),
        (undo_times(x, n).strokes(t).len() == 0) == (x.strokes(t).len() == 0),
    decreases n,
{
    if n > 0 {
        let y = undo_step(x);
        let s = x.strokes(t);
        if x.log.len() > 0 && x.log.last() == t && s.len() >= 2 {
            assert(y.strokes(t) == s.remove(s.len() - 2));
            assert(y.strokes(t).last() == s.last());
        } else {
            assert(y.strokes(t) == s);
        }
        lemma_undo_times_rest(y, (n - 1) as nat, t);
    }
}

/// Undo is the inverse of completing marks: after any run of pointer frames
/// and text commits, over any mix of tools, undoing once per entry the run
/// added to the log restores every tool's sealed strokes, the text boxes and
/// the log. From a store with an empty log, each stroke tool is left with at
/// most its in-progress slot; when no drag is left in progress, that slot is
/// the empty placeholder, and a tool whose list was empty stays empty.
pub proof fn lemma_undo_reverts_events(v: AnnotationView, evs: Seq<StoreEvent>)
    ensures
        ({
            let w = run_events(v, evs);
            let back = undo_times(w, (w.log.len() - v.log.len()) as nat);
            &&& w.log.len() >= v.log.len()
            &&& same_marks(back, v)
            &&& store_wf(v) && v.log.len() == 0 ==> {
                &&& back.pen.len() <= 1
                &&& back.rect.len() <= 1
                &&& back.circle.len() <= 1
                &&& back.arrow.len() <= 1
                &&& back.line.len() <= 1
                &&& back.text.len() == 0
                &&& back.log.len() == 0
            }
            &&& store_wf(v) && v.log.len() == 0 ==> forall|t: SelectionAnnotation|
                t.is_stroke_tool() && at_rest(w.strokes(t)) ==> #[trigger] back.strokes(t) == if w.strokes(
                    t,
                ).len() == 0 {
                    Seq::<Seq<(Point, Stroke)>>::empty()
                } else {
                    seq![Seq::<(Point, Stroke)>::empty()]
                }
        }),
    decreases evs.len(),
{
    let w = run_events(v, evs);
    let n = (w.log.len() - v.log.len()) as nat;
    if evs.len() > 0 {
        let u = run_events(v, evs.drop_last());
        lemma_undo_reverts_events(v, evs.drop_last());
        let nu = (u.log.len() - v.log.len()) as nat;
        lemma_event_then_undo(u, evs.last());
        if w.log == u.log {
            lemma_undo_times_same_marks(w, u, nu);
        } else {
            lemma_undo_times_same_marks(undo_step(w), u, nu);
            assert(undo_times(w, nu + 1) == undo_times(undo_step(w), nu));
        }
    }
    if store_wf(v) && v.log.len() == 0 {
        let back = undo_times(w, n);
        assert forall|t: SelectionAnnotation|
            t.is_stroke_tool() && at_rest(w.strokes(t)) implies #[trigger] back.strokes(t) == if w.strokes(
                t,
            ).len() == 0 {
                Seq::<Seq<(Point, Stroke)>>::empty()
            } else {
                seq![Seq::<(Point, Stroke)>::empty()]
            } by {
            lemma_undo_times_rest(w, n, t);
            let b = back.strokes(t);
            assert(b.len() <= 1);
            if b.len() == 1 {
                assert(b[0] == b.last());
                assert(b[0] =~= Seq::<(Point, Stroke)>::empty());
                assert(b =~= seq![Seq::<(Point, Stroke)>::empty()]);
            } else {
                assert(b =~= Seq::<Seq<(Point, Stroke)>>::empty());
            }
        }
    }
}

/// Whatever pointer frames and text commits a well-formed store receives, every
/// stroke tool keeps exactly as many sealed strokes as the undo log has entries
/// naming it, each sealed stroke holds at least one point, and the log holds
/// one entry per committed text box.
pub proof fn lemma_sealed_strokes_match_log(v: AnnotationView, evs: Seq<StoreEvent>)
    requires
        store_wf(v),
    ensures
        store_wf(run_events(v, evs)),
        forall|t: SelectionAnnotation|
            t.is_stroke_tool() ==> count_tool(run_events(v, evs).log, t) == sealed(
                #[trigger] run_events(v, evs).strokes(t),
            ).len(),
    decreases evs.len(),
{
    let w = run_events(v, evs);
    if evs.len() > 0 {
        let u = run_events(v, evs.drop_last());
        lemma_sealed_strokes_match_log(v, evs.drop_last());
        match evs.last() {
            StoreEvent::Pointer(t, p) => lemma_pointer_step_wf(u, t, p),
            StoreEvent::RequestText => {},
            StoreEvent::CommitText(anchor) => lemma_commit_step_wf(u, anchor),
        }
    }
    assert forall|t: SelectionAnnotation| t.is_stroke_tool() implies count_tool(w.log, t)
        == sealed(#[trigger] w.strokes(t)).len() by {
        assert(tool_wf(w, t));
    }
}

} // verus!
