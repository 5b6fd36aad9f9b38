//! Image demand bookkeeping: which image markers are in view and what changed.
//!
//! A measuring pass visits every image marker on a page: [`Inventory::begin`],
//! then [`Inventory::image`] per marker, then [`Inventory::finish`]. The
//! inventory remembers, per location, the image last reported there and the
//! priority it was reported with, and queues a message only for changes.

use vstd::prelude::*;

use crate::float_bits::{f32_bits_eq, f32_eq};
use crate::message::{BrowseMessage, Message};
use crate::text::{chars_eq, chars_of};

verus! {

/// The page that owns an image collection.
#[derive(Clone, Copy, Debug, PartialEq, Eq, Structural)]
pub enum ArtworkSurface {
    Home,
    Browse,
    Detail,
    PersonalLists,
}

/// How urgently a marked image is wanted.
#[derive(Clone, Copy, Debug, PartialEq, Eq, Structural)]
pub enum ImagePriority {
    Visible,
    Prefetch,
}

/// The scroll direction along which an image's lookahead extends.
#[derive(Clone, Copy, Debug, PartialEq, Eq, Structural)]
pub enum ImageAxis {
    Horizontal,
    Vertical,
}

/// A requested image: `key` names its position on the page, `image_id` the
/// server image, and `rendition` the requested size class and derivation.
#[derive(Clone, Debug)]
pub struct ImageSpec {
    pub key: String,
    pub image_id: String,
    pub rendition: u64,
}

/// An image marker: which image, where, and along which axis it scrolls.
#[derive(Clone, Debug)]
pub struct Identity {
    pub surface: ArtworkSurface,
    pub epoch: u64,
    pub spec: ImageSpec,
    pub axis: ImageAxis,
}

/// The abstract content of a marker, without its axis.
pub struct ImageRef {
    pub surface: ArtworkSurface,
    pub epoch: u64,
    pub key: Seq<char>,
    pub image_id: Seq<char>,
    pub rendition: u64,
}

impl View for Identity {
    type V = ImageRef;

    open spec fn view(&self) -> ImageRef {
        ImageRef {
            surface: self.surface,
            epoch: self.epoch,
            key: self.spec.key@,
            image_id: self.spec.image_id@,
            rendition: self.spec.rendition,
        }
    }
}

/// Two markers stand at the same location: same surface, epoch and key.
pub open spec fn same_location(a: ImageRef, b: ImageRef) -> bool {
    a.surface == b.surface && a.epoch == b.epoch && a.key == b.key
}

impl ImageSpec {
    pub fn duplicate(&self) -> (out: ImageSpec)
        ensures
            out.key@ == self.key@,
            out.image_id@ == self.image_id@,
            out.rendition == self.rendition,
    {
        ImageSpec { key: self.key.clone(), image_id: self.image_id.clone(), rendition: self.rendition }
    }
}

impl Identity {
    pub fn duplicate(&self) -> (out: Identity)
        ensures
            out@ == self@,
            out.axis == self.axis,
    {
        Identity { surface: self.surface, epoch: self.epoch, spec: self.spec.duplicate(), axis: self.axis }
    }

    /// Same surface, epoch and position key.
    pub fn same_location(&self, other: &Self) -> (out: bool)
        ensures
            out == same_location(self@, other@),
    {
        if self.surface != other.surface || self.epoch != other.epoch {
            return false;
        }
        chars_eq(&chars_of(self.spec.key.as_str()), &chars_of(other.spec.key.as_str()))
    }

    /// Same location and same requested image.
    pub fn same_image(&self, other: &Self) -> (out: bool)
        ensures
            out == (self@ == other@),
    {
        self.same_location(other) && self.spec.rendition == other.spec.rendition && chars_eq(
            &chars_of(self.spec.image_id.as_str()),
            &chars_of(other.spec.image_id.as_str()),
        )
    }
}

/// The geometry of the Browse grid's viewport; the offsets travel as the bit
/// patterns of their `f32` values.
#[derive(Clone, Copy, Debug, PartialEq, Eq, Structural)]
pub struct GridGeometry {
    pub epoch: u64,
    pub offset_y_bits: u32,
    pub height_bits: u32,
}

/// Two grid measurements agree when their epochs are equal and their
/// offsets and heights compare equal as `f32`.
pub open spec fn same_grid_spec(a: Option<GridGeometry>, b: Option<GridGeometry>) -> bool {
    match (a, b) {
        (None, None) => true,
        (Some(x), Some(y)) => x.epoch == y.epoch && f32_eq(x.offset_y_bits, y.offset_y_bits) && f32_eq(
            x.height_bits,
            y.height_bits,
        ),
        _ => false,
    }
}

/// What a queued message announces.
pub enum Notice {
    Image { image: ImageRef, priority: Option<ImagePriority> },
    Grid(GridGeometry),
    Other,
}

pub open spec fn notice_of(m: Message) -> Notice {
    match m {
        Message::ImageObserved { surface, epoch, spec, priority } => Notice::Image {
            image: ImageRef {
                surface,
                epoch,
                key: spec.key@,
                image_id: spec.image_id@,
                rendition: spec.rendition,
            },
            priority,
        },
        Message::Browse(BrowseMessage::GridViewportMeasured { epoch, offset_y_bits, height_bits }) =>
            Notice::Grid(GridGeometry { epoch, offset_y_bits, height_bits }),
        _ => Notice::Other,
    }
}

pub open spec fn notices_of(ms: Seq<Message>) -> Seq<Notice> {
    Seq::new(ms.len(), |i: int| notice_of(ms[i]))
}

/// The message announcing that `image` is now wanted with `priority`
/// (`None` revokes it).
pub fn observed(image: &Identity, priority: Option<ImagePriority>) -> (out: Message)
    ensures
        notice_of(out) == (Notice::Image { image: image@, priority }),
{
    Message::ImageObserved {
        surface: image.surface,
        epoch: image.epoch,
        spec: image.spec.duplicate(),
        priority,
    }
}

/// What the inventory remembers for one location.
pub struct Report {
    pub image: Identity,
    pub priority: Option<ImagePriority>,
    pub seen: bool,
}

pub struct ReportView {
    pub image: ImageRef,
    pub priority: Option<ImagePriority>,
    pub seen: bool,
}

impl View for Report {
    type V = ReportView;

    open spec fn view(&self) -> ReportView {
        ReportView { image: self.image@, priority: self.priority, seen: self.seen }
    }
}

pub struct InventoryView {
    pub reports: Seq<ReportView>,
    pub notices: Seq<Notice>,
    pub grid: Option<GridGeometry>,
    pub measured_grid: Option<GridGeometry>,
}

/// Per-page image bookkeeping across measuring passes.
pub struct Inventory {
    reports: Vec<Report>,
    messages: Vec<Message>,
    grid: Option<GridGeometry>,
    measured_grid: Option<GridGeometry>,
}

pub open spec fn report_views(rs: Seq<Report>) -> Seq<ReportView> {
    Seq::new(rs.len(), |i: int| rs[i]@)
}

impl View for Inventory {
    type V = InventoryView;

    closed spec fn view(&self) -> InventoryView {
        InventoryView {
            reports: report_views(self.reports@),
            notices: notices_of(self.messages@),
            grid: self.grid,
            measured_grid: self.measured_grid,
        }
    }
}

// ---------------------------------------------------------------------------
// The abstract operations.

/// No two reports share a location.
pub open spec fn locations_unique(rs: Seq<ReportView>) -> bool {
    forall|i: int, j: int|
        0 <= i < rs.len() && 0 <= j < rs.len() && i != j ==> !same_location(
            #[trigger] rs[i].image,
            #[trigger] rs[j].image,
        )
}

/// The index of the first report at `image`'s location, or -1.
pub open spec fn location_index(rs: Seq<ReportView>, image: ImageRef) -> int
    decreases rs.len(),
{
    if rs.len() == 0 {
        -1
    } else {
        let i = location_index(rs.drop_last(), image);
        if i >= 0 {
            i
        } else if same_location(rs.last().image, image) {
            rs.len() - 1
        } else {
            -1
        }
    }
}

/// A new pass: nothing seen yet, no grid measured yet.
#[verifier::opaque]
pub open spec fn begin_step(v: InventoryView) -> InventoryView {
    InventoryView {
        reports: Seq::new(
            v.reports.len(),
            |i: int| ReportView { seen: false, ..v.reports[i] },
        ),
        measured_grid: None,
        ..v
    }
}

/// A marker reporting `image` with `priority`.
///
/// At a new location the image is admitted. At a known location nothing is
/// queued if image and priority are unchanged; otherwise a replaced image
/// that was wanted is revoked first, then the marker's image is announced.
#[verifier::opaque]
pub open spec fn image_step(v: InventoryView, image: ImageRef, priority: Option<ImagePriority>) -> InventoryView {
    let j = location_index(v.reports, image);
    if j < 0 {
        InventoryView {
            reports: v.reports.push(ReportView { image, priority, seen: true }),
            notices: v.notices.push(Notice::Image { image, priority }),
            ..v
        }
    } else {
        let r = v.reports[j];
        if r.image == image && r.priority == priority {
            InventoryView { reports: v.reports.update(j, ReportView { seen: true, ..r }), ..v }
        } else {
            let revoked = if r.image != image && r.priority is Some {
                seq![Notice::Image { image: r.image, priority: None }]
            } else {
                Seq::<Notice>::empty()
            };
            InventoryView {
                reports: v.reports.update(j, ReportView { image, priority, seen: true }),
                notices: v.notices + revoked + seq![Notice::Image { image, priority }],
                ..v
            }
        }
    }
}

/// The grid marker measured the grid viewport.
pub open spec fn grid_step(v: InventoryView, g: GridGeometry) -> InventoryView {
    InventoryView { measured_grid: Some(g), ..v }
}

/// Revocations for the reports a pass did not see that were wanted, in order.
pub open spec fn unseen_revocations(rs: Seq<ReportView>) -> Seq<Notice>
    decreases rs.len(),
{
    if rs.len() == 0 {
        Seq::<Notice>::empty()
    } else {
        let r = rs.last();
        let rest = unseen_revocations(rs.drop_last());
        if !r.seen && r.priority is Some {
            rest.push(Notice::Image { image: r.image, priority: None })
        } else {
            rest
        }
    }
}

/// The reports a pass saw, in order.
pub open spec fn seen_reports(rs: Seq<ReportView>) -> Seq<ReportView>
    decreases rs.len(),
{
    if rs.len() == 0 {
        Seq::<ReportView>::empty()
    } else {
        let rest = seen_reports(rs.drop_last());
        if rs.last().seen {
            rest.push(rs.last())
        } else {
            rest
        }
    }
}

pub open spec fn is_admission(n: Notice) -> bool {
    n matches Notice::Image { priority: Some(_), .. }
}

/// The notices that are not admissions, in order.
pub open spec fn non_admissions(ns: Seq<Notice>) -> Seq<Notice>
    decreases ns.len(),
{
    if ns.len() == 0 {
        Seq::<Notice>::empty()
    } else {
        let rest = non_admissions(ns.drop_last());
        if is_admission(ns.last()) {
            rest
        } else {
            rest.push(ns.last())
        }
    }
}

/// The admissions, in order.
pub open spec fn admissions(ns: Seq<Notice>) -> Seq<Notice>
    decreases ns.len(),
{
    if ns.len() == 0 {
        Seq::<Notice>::empty()
    } else {
        let rest = admissions(ns.drop_last());
        if is_admission(ns.last()) {
            rest.push(ns.last())
        } else {
            rest
        }
    }
}

/// The end of a pass: unseen wanted images are revoked and forgotten, all
/// removals are ordered before all admissions, and a changed grid
/// measurement is announced last.
#[verifier::opaque]
pub open spec fn finish_step(v: InventoryView) -> InventoryView {
    let all = v.notices + unseen_revocations(v.reports);
    let ordered = non_admissions(all) + admissions(all);
    let changed = !same_grid_spec(v.grid, v.measured_grid);
    let notices = if changed && v.measured_grid is Some {
        ordered.push(Notice::Grid(v.measured_grid->0))
    } else {
        ordered
    };
    InventoryView {
        reports: seen_reports(v.reports),
        notices,
        grid: if changed {
            v.measured_grid
        } else {
            v.grid
        },
        measured_grid: v.measured_grid,
    }
}

pub open spec fn empty_inventory() -> InventoryView {
    InventoryView {
        reports: Seq::<ReportView>::empty(),
        notices: Seq::<Notice>::empty(),
        grid: None,
        measured_grid: None,
    }
}


// ---------------------------------------------------------------------------
// Executable operations.

impl Inventory {
    /// Every location holds at most one report.
    pub open spec fn wf(&self) -> bool {
        locations_unique(self@.reports)
    }

    pub fn new() -> (out: Inventory)
        ensures
            out.wf(),
            out@ == empty_inventory(),
    {
        let out = Inventory { reports: Vec::new(), messages: Vec::new(), grid: None, measured_grid: None };
        assert(out@.reports =~= Seq::<ReportView>::empty());
        assert(out@.notices =~= Seq::<Notice>::empty());
        out
    }

    /// Starts a measuring pass.
    pub fn begin(&mut self)
        requires
            old(self).wf(),
        ensures
            final(self).wf(),
            final(self)@ == begin_step(old(self)@),
    {
        reveal(begin_step);
        let ghost old_reports = report_views(self.reports@);
        let mut i: usize = 0;
        while i < self.reports.len()
            invariant
                i <= self.reports.len(),
                self.reports.len() == old_reports.len(),
                forall|k: int| 0 <= k < i ==> #[trigger] self.reports@[k]@ == (ReportView { seen: false, ..old_reports[k] }),
                forall|k: int| i <= k < self.reports.len() ==> #[trigger] self.reports@[k]@ == old_reports[k],
                self.messages@ == old(self).messages@,
                self.grid == old(self).grid,
            decreases self.reports.len() - i,
        {
            let ghost before = self.reports@;
            self.reports[i].seen = false;
            assert(self.reports@.len() == before.len());
            assert(self.reports@[i as int].image == before[i as int].image);
            assert(forall|k: int| 0 <= k < self.reports.len() && k != i ==> self.reports@[k] == before[k]);
            assert(before[i as int]@ == old_reports[i as int]);
            assert(self.reports@[i as int].priority == before[i as int].priority);
            assert(!self.reports@[i as int].seen);
            assert(self.reports@[i as int]@ == (ReportView { seen: false, ..old_reports[i as int] }));
            i += 1;
        }
        self.measured_grid = None;
        assert(self@.reports =~= begin_step(old(self)@).reports);
    }
}


proof fn lemma_location_index_first(rs: Seq<ReportView>, image: ImageRef, j: int)
    requires
        0 <= j < rs.len(),
        same_location(rs[j].image, image),
        forall|k: int| 0 <= k < j ==> !same_location(#[trigger] rs[k].image, image),
    ensures
        location_index(rs, image) == j,
    decreases rs.len(),
{
    if rs.len() - 1 > j {
        let rd = rs.drop_last();
        assert(rd[j] == rs[j]);
        assert forall|k: int| 0 <= k < j implies !same_location(#[trigger] rd[k].image, image) by {
            assert(rd[k] == rs[k]);
        }
        lemma_location_index_first(rd, image, j);
    } else {
        lemma_location_index_absent(rs.drop_last(), image);
    }
}

proof fn lemma_location_index_absent(rs: Seq<ReportView>, image: ImageRef)
    requires
        forall|k: int| 0 <= k < rs.len() ==> !same_location(#[trigger] rs[k].image, image),
    ensures
        location_index(rs, image) == -1,
    decreases rs.len(),
{
    if rs.len() > 0 {
        let rd = rs.drop_last();
        assert forall|k: int| 0 <= k < rd.len() implies !same_location(#[trigger] rd[k].image, image) by {
            assert(rd[k] == rs[k]);
        }
        lemma_location_index_absent(rd, image);
        assert(rs.last() == rs[rs.len() - 1]);
    }
}

proof fn lemma_notices_push(ms: Seq<Message>, m: Message)
    ensures
        notices_of(ms.push(m)) == notices_of(ms).push(notice_of(m)),
{
    assert(notices_of(ms.push(m)) =~= notices_of(ms).push(notice_of(m)));
}

fn same_priority(a: Option<ImagePriority>, b: Option<ImagePriority>) -> (out: bool)
    ensures
        out == (a == b),
{
    match (a, b) {
        (None, None) => true,
        (Some(x), Some(y)) => x == y,
        _ => false,
    }
}

impl Inventory {
    /// Reports one marker of the current pass.
    pub fn image(&mut self, image: &Identity, priority: Option<ImagePriority>)
        requires
            old(self).wf(),
        ensures
            final(self).wf(),
            final(self)@ == image_step(old(self)@, image@, priority),
    {
        reveal(image_step);
        let ghost v = self@;
        let n = self.reports.len();
        let mut j: usize = 0;
        while j < n && !self.reports[j].image.same_location(image)
            invariant
                n == self.reports.len(),
                j <= n,
                forall|k: int| 0 <= k < j ==> !same_location(#[trigger] self.reports@[k]@.image, image@),
            decreases n - j,
        {
            j += 1;
        }
        proof {
            assert forall|k: int| 0 <= k < j implies !same_location(#[trigger] v.reports[k].image, image@) by {
                assert(v.reports[k] == self.reports@[k]@);
            }
        }
        if j == n {
            proof {
                lemma_location_index_absent(v.reports, image@);
            }
            let report = Report { image: image.duplicate(), priority, seen: true };
            self.reports.push(report);
            let m = observed(image, priority);
            proof {
                lemma_notices_push(self.messages@, m);
            }
            self.messages.push(m);
            assert(self@.reports =~= v.reports.push(ReportView { image: image@, priority, seen: true }));
            return;
        }
        proof {
            assert(v.reports[j as int] == self.reports@[j as int]@);
            lemma_location_index_first(v.reports, image@, j as int);
        }
        let same = self.reports[j].image.same_image(image);
        let unchanged_priority = same_priority(self.reports[j].priority, priority);
        if same && unchanged_priority {
            self.reports[j].seen = true;
            assert(self@.reports =~= v.reports.update(j as int, ReportView { seen: true, ..v.reports[j as int] }));
            return;
        }
        if !same && self.reports[j].priority.is_some() {
            let m = observed(&self.reports[j].image, None);
            proof {
                lemma_notices_push(self.messages@, m);
            }
            self.messages.push(m);
        }
        self.reports[j].image = image.duplicate();
        self.reports[j].priority = priority;
        self.reports[j].seen = true;
        let m = observed(image, priority);
        proof {
            lemma_notices_push(self.messages@, m);
        }
        self.messages.push(m);
        assert(self@.reports =~= v.reports.update(j as int, ReportView { image: image@, priority, seen: true }));
        assert(self@.notices =~= image_step(v, image@, priority).notices);
    }

    /// The grid marker measured the grid viewport in the current pass.
    pub fn measure_grid(&mut self, grid: GridGeometry)
        ensures
            final(self)@ == grid_step(old(self)@, grid),
            final(self).wf() == old(self).wf(),
    {
        self.measured_grid = Some(grid);
    }
}


proof fn lemma_seen_reports_unique(rs: Seq<ReportView>)
    requires
        locations_unique(rs),
    ensures
        locations_unique(seen_reports(rs)),
        forall|x: int|
            0 <= x < seen_reports(rs).len() ==> exists|k: int|
                0 <= k < rs.len() && #[trigger] seen_reports(rs)[x] == rs[k],
    decreases rs.len(),
{
    if rs.len() > 0 {
        let rd = rs.drop_last();
        assert forall|i: int, j: int|
            0 <= i < rd.len() && 0 <= j < rd.len() && i != j implies !same_location(
            #[trigger] rd[i].image,
            #[trigger] rd[j].image,
        ) by {
            assert(rd[i] == rs[i] && rd[j] == rs[j]);
        }
        lemma_seen_reports_unique(rd);
        let sd = seen_reports(rd);
        let last = rs.last();
        if last.seen {
            let s = sd.push(last);
            assert(seen_reports(rs) == s);
            assert forall|x: int| 0 <= x < sd.len() implies !same_location(#[trigger] sd[x].image, last.image)
                && !same_location(last.image, sd[x].image) by {
                let k = choose|k: int| 0 <= k < rd.len() && sd[x] == rd[k];
                assert(rd[k] == rs[k]);
                assert(rs[rs.len() - 1] == last);
            }
            assert forall|i: int, j: int|
                0 <= i < s.len() && 0 <= j < s.len() && i != j implies !same_location(
                #[trigger] s[i].image,
                #[trigger] s[j].image,
            ) by {
                if i < sd.len() && j < sd.len() {
                    assert(s[i] == sd[i] && s[j] == sd[j]);
                } else if i < sd.len() {
                    assert(s[i] == sd[i] && s[j] == last);
                } else {
                    assert(s[j] == sd[j] && s[i] == last);
                }
            }
            assert forall|x: int| 0 <= x < s.len() implies exists|k: int|
                0 <= k < rs.len() && #[trigger] s[x] == rs[k] by {
                if x < sd.len() {
                    let k = choose|k: int| 0 <= k < rd.len() && sd[x] == rd[k];
                    assert(rd[k] == rs[k]);
                    assert(s[x] == rs[k]);
                } else {
                    assert(s[x] == rs[rs.len() - 1]);
                }
            }
        } else {
            assert forall|x: int| 0 <= x < sd.len() implies exists|k: int|
                0 <= k < rs.len() && #[trigger] sd[x] == rs[k] by {
                let k = choose|k: int| 0 <= k < rd.len() && sd[x] == rd[k];
                assert(rd[k] == rs[k]);
            }
        }
    }
}

fn is_admission_message(m: &Message) -> (out: bool)
    ensures
        out == is_admission(notice_of(*m)),
{
    match m {
        Message::ImageObserved { priority: Some(_), .. } => true,
        _ => false,
    }
}

fn same_grid(a: Option<GridGeometry>, b: Option<GridGeometry>) -> (out: bool)
    ensures
        out == same_grid_spec(a, b),
{
    match (a, b) {
        (None, None) => true,
        (Some(x), Some(y)) => x.epoch == y.epoch && f32_bits_eq(x.offset_y_bits, y.offset_y_bits)
            && f32_bits_eq(x.height_bits, y.height_bits),
        _ => false,
    }
}

impl Inventory {
    /// Ends the current pass.
    pub fn finish(&mut self)
        requires
            old(self).wf(),
        ensures
            final(self).wf(),
            final(self)@ == finish_step(old(self)@),
    {
        reveal(finish_step);
        let ghost v = self@;
        let mut old_reports: Vec<Report> = Vec::new();
        std::mem::swap(&mut old_reports, &mut self.reports);
        let ghost rv = report_views(old_reports@);
        assert(rv == v.reports);
        let mut kept: Vec<Report> = Vec::new();
        let mut revocations: Vec<Message> = Vec::new();
        let mut i: usize = 0;
        assert(rv.take(0) =~= Seq::<ReportView>::empty());
        assert(report_views(kept@) =~= Seq::<ReportView>::empty());
        assert(notices_of(revocations@) =~= Seq::<Notice>::empty());
        while i < old_reports.len()
            invariant
                i <= old_reports.len(),
                rv == report_views(old_reports@),
                report_views(kept@) == seen_reports(rv.take(i as int)),
                notices_of(revocations@) == unseen_revocations(rv.take(i as int)),
            decreases old_reports.len() - i,
        {
            let ghost before_kept = report_views(kept@);
            assert(rv.take(i as int + 1).drop_last() =~= rv.take(i as int));
            assert(rv.take(i as int + 1).last() == rv[i as int]);
            let r = &old_reports[i];
            if r.seen {
                kept.push(Report { image: r.image.duplicate(), priority: r.priority, seen: true });
                assert(report_views(kept@) =~= before_kept.push(rv[i as int]));
            } else if r.priority.is_some() {
                let m = observed(&r.image, None);
                proof {
                    lemma_notices_push(revocations@, m);
                }
                revocations.push(m);
            }
            i += 1;
        }
        assert(rv.take(old_reports.len() as int) =~= rv);
        proof {
            lemma_seen_reports_unique(rv);
        }
        self.reports = kept;
        let mut all: Vec<Message> = Vec::new();
        std::mem::swap(&mut all, &mut self.messages);
        let ghost before_all = all@;
        all.append(&mut revocations);
        let ghost ns = notices_of(all@);
        assert(ns =~= v.notices + unseen_revocations(v.reports));
        let mut removals: Vec<Message> = Vec::new();
        let mut adds: Vec<Message> = Vec::new();
        assert(ns.take(0) =~= Seq::<Notice>::empty());
        assert(notices_of(removals@) =~= Seq::<Notice>::empty());
        assert(notices_of(adds@) =~= Seq::<Notice>::empty());
        let ghost total = all@;
        let mut rest: Vec<Message> = Vec::new();
        while all.len() > 0
            invariant
                all@ == total.take(total.len() - rest.len()),
                rest.len() <= total.len(),
                forall|k: int| 0 <= k < rest.len() ==> #[trigger] rest@[k] == total[total.len() - 1 - k],
            decreases all.len(),
        {
            let ghost before = all@;
            let m = all.pop().unwrap();
            rest.push(m);
            assert(all@ =~= total.take(total.len() - rest.len()));
        }
        while rest.len() > 0
            invariant
                rest.len() <= total.len(),
                forall|k: int| 0 <= k < rest.len() ==> #[trigger] rest@[k] == total[total.len() - 1 - k],
                ns == notices_of(total),
                notices_of(removals@) == non_admissions(ns.take(total.len() - rest.len())),
                notices_of(adds@) == admissions(ns.take(total.len() - rest.len())),
            decreases rest.len(),
        {
            let ghost done = (total.len() - rest.len()) as int;
            let m = rest.pop().unwrap();
            assert(m == total[done]);
            assert(ns.take(done + 1).drop_last() =~= ns.take(done));
            assert(ns.take(done + 1).last() == notice_of(m));
            if is_admission_message(&m) {
                proof {
                    lemma_notices_push(adds@, m);
                }
                adds.push(m);
            } else {
                proof {
                    lemma_notices_push(removals@, m);
                }
                removals.push(m);
            }
        }
        assert(ns.take(total.len() as int) =~= ns);
        let ghost removal_view = notices_of(removals@);
        let ghost add_view = notices_of(adds@);
        removals.append(&mut adds);
        assert(notices_of(removals@) =~= removal_view + add_view);
        self.messages = removals;
        if !same_grid(self.grid, self.measured_grid) {
            if let Some(g) = self.measured_grid {
                let m = Message::Browse(
                    BrowseMessage::GridViewportMeasured {
                        epoch: g.epoch,
                        offset_y_bits: g.offset_y_bits,
                        height_bits: g.height_bits,
                    },
                );
                proof {
                    lemma_notices_push(self.messages@, m);
                }
                self.messages.push(m);
            }
            self.grid = self.measured_grid;
        }
    }

    /// Hands over the queued messages, leaving none queued.
    pub fn take_messages(&mut self) -> (out: Vec<Message>)
        ensures
            notices_of(out@) == old(self)@.notices,
            final(self)@ == (InventoryView { notices: Seq::<Notice>::empty(), ..old(self)@ }),
            final(self).wf() == old(self).wf(),
    {
        let mut out: Vec<Message> = Vec::new();
        std::mem::swap(&mut out, &mut self.messages);
        assert(self@.notices =~= Seq::<Notice>::empty());
        out
    }
}


// ---------------------------------------------------------------------------
// Passes.

/// One marker of a pass: the image it reports and the priority measured for it.
pub open spec fn markers_distinct(ms: Seq<(ImageRef, Option<ImagePriority>)>) -> bool {
    forall|i: int, j: int|
        0 <= i < ms.len() && 0 <= j < ms.len() && i != j ==> !same_location(
            #[trigger] ms[i].0,
            #[trigger] ms[j].0,
        )
}

/// Reporting every marker, in order.
#[verifier::opaque]
pub open spec fn measure_all(v: InventoryView, ms: Seq<(ImageRef, Option<ImagePriority>)>) -> InventoryView
    decreases ms.len(),
{
    if ms.len() == 0 {
        v
    } else {
        image_step(measure_all(v, ms.drop_last()), ms.last().0, ms.last().1)
    }
}

/// A whole measuring pass over image markers.
#[verifier::opaque]
pub open spec fn pass(v: InventoryView, ms: Seq<(ImageRef, Option<ImagePriority>)>) -> InventoryView {
    finish_step(measure_all(begin_step(v), ms))
}

/// The report holds some marker's image and priority.
pub open spec fn report_in_markers(r: ReportView, ms: Seq<(ImageRef, Option<ImagePriority>)>) -> bool {
    exists|k: int| 0 <= k < ms.len() && r.image == ms[k].0 && r.priority == ms[k].1
}

/// Some report holds the marker's image and priority.
pub open spec fn marker_in_reports(m: (ImageRef, Option<ImagePriority>), rs: Seq<ReportView>) -> bool {
    exists|i: int| 0 <= i < rs.len() && rs[i].image == m.0 && rs[i].priority == m.1
}

/// Each report holds some marker's image and priority, and each marker has such a report.
pub open spec fn reflects(rs: Seq<ReportView>, ms: Seq<(ImageRef, Option<ImagePriority>)>) -> bool {
    &&& forall|i: int| 0 <= i < rs.len() ==> #[trigger] report_in_markers(rs[i], ms)
    &&& forall|k: int| 0 <= k < ms.len() ==> #[trigger] marker_in_reports(ms[k], rs)
}

proof fn lemma_location_index_props(rs: Seq<ReportView>, image: ImageRef)
    ensures
        -1 <= location_index(rs, image) < rs.len(),
        location_index(rs, image) >= 0 ==> same_location(
            rs[location_index(rs, image)].image,
            image,
        ),
        location_index(rs, image) < 0 ==> forall|k: int|
            0 <= k < rs.len() ==> !same_location(#[trigger] rs[k].image, image),
    decreases rs.len(),
{
    if rs.len() > 0 {
        let rd = rs.drop_last();
        lemma_location_index_props(rd, image);
        let i = location_index(rd, image);
        if i >= 0 {
            assert(rd[i] == rs[i]);
        } else {
            assert forall|k: int| 0 <= k < rs.len() - 1 implies !same_location(#[trigger] rs[k].image, image) by {
                assert(rd[k] == rs[k]);
            }
            assert(rs.last() == rs[rs.len() - 1]);
        }
    }
}

/// The reports after one marker: the marker's report is written at its location.
proof fn lemma_image_step_reports(v: InventoryView, image: ImageRef, priority: Option<ImagePriority>)
    requires
        locations_unique(v.reports),
    ensures
        ({
            let j = location_index(v.reports, image);
            let r = ReportView { image, priority, seen: true };
            let w = image_step(v, image, priority);
            &&& j < 0 ==> w.reports == v.reports.push(r)
            &&& j >= 0 ==> w.reports == v.reports.update(j, r)
            &&& j < 0 ==> forall|k: int| 0 <= k < v.reports.len() ==> !same_location(#[trigger] v.reports[k].image, image)
            &&& j >= 0 ==> forall|k: int| 0 <= k < v.reports.len() && k != j ==> !same_location(#[trigger] v.reports[k].image, image)
            &&& j >= 0 ==> j < v.reports.len() && same_location(v.reports[j].image, image)
            &&& locations_unique(w.reports)
            &&& w.grid == v.grid && w.measured_grid == v.measured_grid
            &&& (j >= 0 && v.reports[j].image == image && v.reports[j].priority == priority)
                ==> w.notices == v.notices
        }),
{
    reveal(image_step);
    lemma_location_index_props(v.reports, image);
    let j = location_index(v.reports, image);
    let rs = v.reports;
    let r = ReportView { image, priority, seen: true };
    let w = image_step(v, image, priority);
    if j >= 0 {
        assert forall|k: int| 0 <= k < rs.len() && k != j implies !same_location(#[trigger] rs[k].image, image) by {
            if same_location(rs[k].image, image) {
                assert(same_location(rs[k].image, rs[j].image));
            }
        }
        let ws = rs.update(j, r);
        assert(w.reports == ws);
        assert forall|a: int, b: int| 0 <= a < ws.len() && 0 <= b < ws.len() && a != b implies !same_location(
            #[trigger] ws[a].image,
            #[trigger] ws[b].image,
        ) by {
            if a == j {
                assert(!same_location(rs[b].image, image));
            } else if b == j {
                assert(!same_location(rs[a].image, image));
            }
        }
    } else {
        let ws = rs.push(r);
        assert forall|a: int, b: int| 0 <= a < ws.len() && 0 <= b < ws.len() && a != b implies !same_location(
            #[trigger] ws[a].image,
            #[trigger] ws[b].image,
        ) by {
            if a == rs.len() {
                assert(!same_location(rs[b].image, image));
            } else if b == rs.len() {
                assert(!same_location(rs[a].image, image));
            }
        }
    }
}

proof fn lemma_seen_reports_all_seen(rs: Seq<ReportView>)
    requires
        forall|i: int| 0 <= i < rs.len() ==> (#[trigger] rs[i]).seen,
    ensures
        seen_reports(rs) == rs,
        unseen_revocations(rs) == Seq::<Notice>::empty(),
    decreases rs.len(),
{
    if rs.len() > 0 {
        let rd = rs.drop_last();
        assert forall|i: int| 0 <= i < rd.len() implies (#[trigger] rd[i]).seen by {
            assert(rd[i] == rs[i]);
        }
        lemma_seen_reports_all_seen(rd);
        assert(rs.last() == rs[rs.len() - 1]);
        assert(rd.push(rs.last()) =~= rs);
    }
}

proof fn lemma_partition_empty()
    ensures
        non_admissions(Seq::<Notice>::empty()) == Seq::<Notice>::empty(),
        admissions(Seq::<Notice>::empty()) == Seq::<Notice>::empty(),
{
}

/// Measuring markers over a settled inventory changes no image or priority.
#[verifier::spinoff_prover]
#[verifier::rlimit(50)]
proof fn lemma_measure_settled(
    v0: InventoryView,
    ms: Seq<(ImageRef, Option<ImagePriority>)>,
    k: nat,
)
    requires
        locations_unique(v0.reports),
        markers_distinct(ms),
        reflects(v0.reports, ms),
        k <= ms.len(),
    ensures
        ({
            let u = measure_all(begin_step(v0), ms.take(k as int));
            &&& u.notices == v0.notices
            &&& u.grid == v0.grid
            &&& u.measured_grid is None
            &&& u.reports.len() == v0.reports.len()
            &&& forall|i: int|
                0 <= i < u.reports.len() ==> (#[trigger] u.reports[i]).image == v0.reports[i].image
                    && u.reports[i].priority == v0.reports[i].priority
            &&& forall|j: int, i: int|
                0 <= j < k && 0 <= i < u.reports.len() && u.reports[i].image == #[trigger] ms[j].0
                    ==> (#[trigger] u.reports[i]).seen
        }),
    decreases k,
{
    reveal(begin_step);
    let b = begin_step(v0);
    if k == 0 {
        assert(ms.take(0) =~= Seq::<(ImageRef, Option<ImagePriority>)>::empty());
        reveal(measure_all);
    } else {
        let k1 = (k - 1) as nat;
        lemma_measure_settled(v0, ms, k1);
        let u1 = measure_all(b, ms.take(k1 as int));
        assert(ms.take(k as int).drop_last() =~= ms.take(k1 as int));
        assert(ms.take(k as int).last() == ms[k1 as int]);
        let img = ms[k1 as int].0;
        let pr = ms[k1 as int].1;
        let u = image_step(u1, img, pr);
        assert(measure_all(b, ms.take(k as int)) == u) by {
            reveal(measure_all);
        }
        assert forall|a: int, c: int| 0 <= a < u1.reports.len() && 0 <= c < u1.reports.len() && a != c implies !same_location(
            #[trigger] u1.reports[a].image,
            #[trigger] u1.reports[c].image,
        ) by {
            assert(u1.reports[a].image == v0.reports[a].image);
            assert(u1.reports[c].image == v0.reports[c].image);
        }
        assert(marker_in_reports(ms[k1 as int], v0.reports));
        let i0 = choose|i: int| 0 <= i < v0.reports.len() && v0.reports[i].image == ms[k1 as int].0 && v0.reports[i].priority == ms[k1 as int].1;
        lemma_image_step_reports(u1, img, pr);
        lemma_location_index_props(u1.reports, img);
        let j0 = location_index(u1.reports, img);
        assert(u1.reports[i0].image == img);
        assert(j0 == i0) by {
            if j0 < 0 {
                assert(!same_location(u1.reports[i0].image, img));
            } else if j0 != i0 {
                assert(same_location(u1.reports[j0].image, u1.reports[i0].image));
            }
        }
        assert(u1.reports[j0].image == img && u1.reports[j0].priority == pr);
        assert(u.reports == u1.reports.update(j0, ReportView { image: img, priority: pr, seen: true }));
        assert(u.notices == v0.notices);
        assert(u.reports.len() == v0.reports.len());
        assert forall|i: int| 0 <= i < u.reports.len() implies (#[trigger] u.reports[i]).image
            == v0.reports[i].image && u.reports[i].priority == v0.reports[i].priority by {
            if i == j0 {
            } else {
                assert(u.reports[i] == u1.reports[i]);
            }
        }
        assert forall|j: int, i: int|
            0 <= j < k && 0 <= i < u.reports.len() && u.reports[i].image == #[trigger] ms[j].0
                implies (#[trigger] u.reports[i]).seen by {
            if i != j0 {
                assert(u.reports[i] == u1.reports[i]);
                if j == k1 {
                    assert(same_location(u1.reports[i].image, u1.reports[j0].image));
                    assert(false);
                } else {
                    assert(u1.reports[i].image == ms[j].0);
                    assert(u1.reports[i].seen);
                }
            }
        }
    }
}

/// A pass over the markers an inventory already reflects queues nothing of
/// its own and changes no report.
proof fn lemma_settled_measure_sees_all(v: InventoryView, ms: Seq<(ImageRef, Option<ImagePriority>)>)
    requires
        locations_unique(v.reports),
        markers_distinct(ms),
        reflects(v.reports, ms),
    ensures
        ({
            let u = measure_all(begin_step(v), ms);
            &&& u.notices == v.notices
            &&& u.grid == v.grid
            &&& u.measured_grid is None
            &&& u.reports.len() == v.reports.len()
            &&& forall|i: int|
                0 <= i < u.reports.len() ==> (#[trigger] u.reports[i]).image == v.reports[i].image
                    && u.reports[i].priority == v.reports[i].priority && u.reports[i].seen
        }),
{
    lemma_measure_settled(v, ms, ms.len());
    assert(ms.take(ms.len() as int) =~= ms);
    let u = measure_all(begin_step(v), ms);
    assert forall|i: int| 0 <= i < u.reports.len() implies (#[trigger] u.reports[i]).seen by {
        assert(report_in_markers(v.reports[i], ms));
        let k = choose|k: int| 0 <= k < ms.len() && v.reports[i].image == ms[k].0 && v.reports[i].priority == ms[k].1;
        assert(u.reports[i].image == ms[k].0);
    }
}

#[verifier::spinoff_prover]
pub proof fn lemma_settled_pass_is_silent(v: InventoryView, ms: Seq<(ImageRef, Option<ImagePriority>)>)
    requires
        locations_unique(v.reports),
        markers_distinct(ms),
        reflects(v.reports, ms),
        v.grid is None,
    ensures
        pass(v, ms).notices == non_admissions(v.notices) + admissions(v.notices),
        pass(v, ms).reports.len() == v.reports.len(),
        forall|i: int|
            0 <= i < v.reports.len() ==> (#[trigger] pass(v, ms).reports[i]).image
                == v.reports[i].image && pass(v, ms).reports[i].priority == v.reports[i].priority,
        pass(v, ms).grid is None,
{
    lemma_settled_measure_sees_all(v, ms);
    let u = measure_all(begin_step(v), ms);
    lemma_seen_reports_all_seen(u.reports);
    let w = finish_step(u);
    assert(pass(v, ms) == w) by {
        reveal(pass);
    }
    assert(u.grid is None && u.measured_grid is None);
    let all = u.notices + unseen_revocations(u.reports);
    assert(all =~= u.notices);
    assert(w.reports == seen_reports(u.reports)) by {
        reveal(finish_step);
    }
    assert(w.grid == u.measured_grid) by {
        reveal(finish_step);
    }
    assert(w.notices == non_admissions(all) + admissions(all)) by {
        reveal(finish_step);
    }
}


/// Some seen report holds the marker's image and priority.
pub open spec fn marker_seen(m: (ImageRef, Option<ImagePriority>), rs: Seq<ReportView>) -> bool {
    exists|i: int| 0 <= i < rs.len() && rs[i].image == m.0 && rs[i].priority == m.1 && rs[i].seen
}

#[verifier::spinoff_prover]
#[verifier::rlimit(50)]
proof fn lemma_measure_any(v: InventoryView, ms: Seq<(ImageRef, Option<ImagePriority>)>, k: nat)
    requires
        locations_unique(v.reports),
        markers_distinct(ms),
        k <= ms.len(),
    ensures
        ({
            let u = measure_all(begin_step(v), ms.take(k as int));
            &&& locations_unique(u.reports)
            &&& u.measured_grid is None
            &&& u.grid == v.grid
            &&& forall|j: int| 0 <= j < k ==> #[trigger] marker_seen(ms[j], u.reports)
            &&& forall|i: int|
                0 <= i < u.reports.len() && (#[trigger] u.reports[i]).seen ==> report_in_markers(
                    u.reports[i],
                    ms,
                )
        }),
    decreases k,
{
    reveal(begin_step);
    let b = begin_step(v);
    if k == 0 {
        assert(ms.take(0) =~= Seq::<(ImageRef, Option<ImagePriority>)>::empty());
        reveal(measure_all);
        assert forall|a: int, c: int| 0 <= a < b.reports.len() && 0 <= c < b.reports.len() && a != c implies !same_location(
            #[trigger] b.reports[a].image,
            #[trigger] b.reports[c].image,
        ) by {
            assert(b.reports[a].image == v.reports[a].image);
            assert(b.reports[c].image == v.reports[c].image);
        }
    } else {
        let k1 = (k - 1) as nat;
        lemma_measure_any(v, ms, k1);
        let u1 = measure_all(b, ms.take(k1 as int));
        assert(ms.take(k as int).drop_last() =~= ms.take(k1 as int));
        assert(ms.take(k as int).last() == ms[k1 as int]);
        let img = ms[k1 as int].0;
        let pr = ms[k1 as int].1;
        let u = image_step(u1, img, pr);
        assert(measure_all(b, ms.take(k as int)) == u) by {
            reveal(measure_all);
        }
        lemma_image_step_reports(u1, img, pr);
        lemma_location_index_props(u1.reports, img);
        let j0 = location_index(u1.reports, img);
        let r = ReportView { image: img, priority: pr, seen: true };
        let at = if j0 < 0 { u1.reports.len() as int } else { j0 };
        assert(u.reports[at] == r);
        assert(report_in_markers(r, ms)) by {
            assert(r.image == ms[k1 as int].0 && r.priority == ms[k1 as int].1);
        }
        assert forall|i: int| 0 <= i < u.reports.len() && i != at implies #[trigger] u.reports[i] == u1.reports[i] by {
        }
        assert forall|j: int| 0 <= j < k implies #[trigger] marker_seen(ms[j], u.reports) by {
            if j == k1 {
                assert(u.reports[at].image == ms[j].0);
            } else {
                assert(marker_seen(ms[j], u1.reports));
                let i = choose|i: int| 0 <= i < u1.reports.len() && u1.reports[i].image == ms[j].0 && u1.reports[i].priority == ms[j].1 && u1.reports[i].seen;
                if i == at {
                    assert(same_location(u1.reports[i].image, img));
                    assert(!same_location(ms[j].0, ms[k1 as int].0));
                    assert(false);
                }
                assert(u.reports[i] == u1.reports[i]);
            }
        }
        assert forall|i: int| 0 <= i < u.reports.len() && (#[trigger] u.reports[i]).seen implies report_in_markers(
            u.reports[i],
            ms,
        ) by {
            if i != at {
                assert(u.reports[i] == u1.reports[i]);
            }
        }
    }
}

pub open spec fn occurs_in(r: ReportView, rs: Seq<ReportView>) -> bool {
    exists|k: int| 0 <= k < rs.len() && rs[k] == r
}

proof fn lemma_seen_reports_members(rs: Seq<ReportView>)
    ensures
        forall|x: int|
            0 <= x < seen_reports(rs).len() ==> (#[trigger] seen_reports(rs)[x]).seen && occurs_in(
                seen_reports(rs)[x],
                rs,
            ),
        forall|k: int|
            0 <= k < rs.len() && rs[k].seen ==> #[trigger] occurs_in(rs[k], seen_reports(rs)),
    decreases rs.len(),
{
    if rs.len() > 0 {
        let rd = rs.drop_last();
        lemma_seen_reports_members(rd);
        let sd = seen_reports(rd);
        let sr = seen_reports(rs);
        let last = rs.last();
        assert(last == rs[rs.len() - 1]);
        assert forall|x: int| 0 <= x < sr.len() implies (#[trigger] sr[x]).seen && occurs_in(sr[x], rs) by {
            if x < sd.len() {
                assert(sr[x] == sd[x]);
                assert(occurs_in(sd[x], rd));
                let k = choose|k: int| 0 <= k < rd.len() && rd[k] == sd[x];
                assert(rd[k] == rs[k]);
            } else {
                assert(sr[x] == rs[rs.len() - 1]);
            }
        }
        assert forall|k: int| 0 <= k < rs.len() && rs[k].seen implies #[trigger] occurs_in(rs[k], sr) by {
            if k < rd.len() {
                assert(rd[k] == rs[k]);
                assert(occurs_in(rd[k], sd));
                let x = choose|x: int| 0 <= x < sd.len() && sd[x] == rd[k];
                assert(sr[x] == sd[x]);
            } else {
                assert(sr[sr.len() - 1] == last);
            }
        }
    }
}

/// After a pass over distinct markers, the inventory holds exactly one
/// report per marker, with that marker's image and priority.
pub proof fn lemma_pass_reflects_markers(v: InventoryView, ms: Seq<(ImageRef, Option<ImagePriority>)>)
    requires
        locations_unique(v.reports),
        markers_distinct(ms),
    ensures
        locations_unique(pass(v, ms).reports),
        reflects(pass(v, ms).reports, ms),
        pass(v, ms).grid is None,
{
    lemma_measure_any(v, ms, ms.len());
    assert(ms.take(ms.len() as int) =~= ms);
    let u = measure_all(begin_step(v), ms);
    let w = finish_step(u);
    assert(pass(v, ms) == w) by {
        reveal(pass);
    }
    assert(w.reports == seen_reports(u.reports) && w.grid == u.measured_grid) by {
        reveal(finish_step);
    }
    lemma_seen_reports_unique(u.reports);
    lemma_seen_reports_members(u.reports);
    let sr = w.reports;
    assert forall|x: int| 0 <= x < sr.len() implies #[trigger] report_in_markers(sr[x], ms) by {
        assert(occurs_in(sr[x], u.reports));
        let k = choose|k: int| 0 <= k < u.reports.len() && u.reports[k] == sr[x];
        assert(u.reports[k].seen);
    }
    assert forall|j: int| 0 <= j < ms.len() implies #[trigger] marker_in_reports(ms[j], sr) by {
        assert(marker_seen(ms[j], u.reports));
        let i = choose|i: int| 0 <= i < u.reports.len() && u.reports[i].image == ms[j].0 && u.reports[i].priority == ms[j].1 && u.reports[i].seen;
        assert(occurs_in(u.reports[i], sr));
        let x = choose|x: int| 0 <= x < sr.len() && sr[x] == u.reports[i];
        assert(sr[x].image == ms[j].0);
    }
}

/// Repeating a pass over the same distinct markers, once the first pass's
/// messages are handed over, queues nothing and keeps every report's image
/// and priority: unchanged geometry is silent.
pub proof fn lemma_repeated_pass_is_silent(v: InventoryView, ms: Seq<(ImageRef, Option<ImagePriority>)>)
    requires
        locations_unique(v.reports),
        markers_distinct(ms),
    ensures
        ({
            let w = pass(v, ms);
            let drained = InventoryView { notices: Seq::<Notice>::empty(), ..w };
            &&& pass(drained, ms).notices.len() == 0
            &&& pass(drained, ms).reports.len() == w.reports.len()
            &&& forall|i: int|
                0 <= i < w.reports.len() ==> (#[trigger] pass(drained, ms).reports[i]).image
                    == w.reports[i].image && pass(drained, ms).reports[i].priority
                    == w.reports[i].priority
        }),
{
    lemma_pass_reflects_markers(v, ms);
    let w = pass(v, ms);
    let drained = InventoryView { notices: Seq::<Notice>::empty(), ..w };
    lemma_settled_pass_is_silent(drained, ms);
    lemma_partition_empty();
    assert(Seq::<Notice>::empty() + Seq::<Notice>::empty() =~= Seq::<Notice>::empty());
}


pub open spec fn is_revocation(n: Notice) -> bool {
    n matches Notice::Image { priority: None, .. }
}

proof fn lemma_partition_members(ns: Seq<Notice>)
    ensures
        forall|i: int| 0 <= i < non_admissions(ns).len() ==> !is_admission(#[trigger] non_admissions(ns)[i]),
        forall|i: int| 0 <= i < admissions(ns).len() ==> is_admission(#[trigger] admissions(ns)[i]),
    decreases ns.len(),
{
    if ns.len() > 0 {
        lemma_partition_members(ns.drop_last());
        let na = non_admissions(ns.drop_last());
        let ad = admissions(ns.drop_last());
        assert forall|i: int| 0 <= i < non_admissions(ns).len() implies !is_admission(#[trigger] non_admissions(ns)[i]) by {
            if i < na.len() {
                assert(non_admissions(ns)[i] == na[i]);
            }
        }
        assert forall|i: int| 0 <= i < admissions(ns).len() implies is_admission(#[trigger] admissions(ns)[i]) by {
            if i < ad.len() {
                assert(admissions(ns)[i] == ad[i]);
            }
        }
    }
}

/// The end of a pass never announces a revocation after an admission:
/// reconciliation may move an image between locations, and all removals
/// are delivered before all admissions.
pub proof fn lemma_finish_orders_removals_first(v: InventoryView)
    ensures
        forall|i: int, j: int|
            0 <= i < j < finish_step(v).notices.len() && is_admission(
                #[trigger] finish_step(v).notices[i],
            ) ==> !is_revocation(#[trigger] finish_step(v).notices[j]),
{
    reveal(finish_step);
    let all = v.notices + unseen_revocations(v.reports);
    let na = non_admissions(all);
    let ad = admissions(all);
    lemma_partition_members(all);
    let ns = finish_step(v).notices;
    let ordered = na + ad;
    assert forall|i: int, j: int|
        0 <= i < j < ns.len() && is_admission(#[trigger] ns[i]) implies !is_revocation(#[trigger] ns[j]) by {
        if i < na.len() {
            assert(ns[i] == na[i]);
        }
        if j < ordered.len() {
            assert(ns[j] == ordered[j]);
            assert(ordered[j] == ad[j - na.len()]);
        }
    }
}

/// The marker state a widget keeps across rebuilds: an unchanged image keeps
/// its state and only adopts the new axis; anything else is replaced.
pub fn diff_marker(current: &mut Option<Identity>, next: &Option<Identity>)
    ensures
        match (*old(current), *next) {
            (Some(c), Some(n)) => if c@ == n@ {
                *final(current) matches Some(f) && f@ == c@ && f.axis == n.axis
            } else {
                *final(current) matches Some(f) && f@ == n@ && f.axis == n.axis
            },
            (_, None) => *final(current) is None,
            (None, Some(n)) => *final(current) matches Some(f) && f@ == n@ && f.axis == n.axis,
        },
{
    let keep = match (&*current, next) {
        (Some(c), Some(n)) => c.same_image(n),
        _ => false,
    };
    if keep {
        match (current, next) {
            (Some(c), Some(n)) => {
                c.axis = n.axis;
            },
            _ => {},
        }
    } else {
        *current = match next {
            Some(n) => Some(n.duplicate()),
            None => None,
        };
    }
}

proof fn lemma_unseen_revocations_cover(rs: Seq<ReportView>, i: int)
    requires
        0 <= i < rs.len(),
        !rs[i].seen,
        rs[i].priority is Some,
    ensures
        unseen_revocations(rs).contains(Notice::Image { image: rs[i].image, priority: None }),
    decreases rs.len(),
{
    let n = Notice::Image { image: rs[i].image, priority: None };
    let rest = unseen_revocations(rs.drop_last());
    if i == rs.len() - 1 {
        assert(unseen_revocations(rs) == rest.push(n));
        assert(unseen_revocations(rs)[rest.len() as int] == n);
    } else {
        assert(rs.drop_last()[i] == rs[i]);
        lemma_unseen_revocations_cover(rs.drop_last(), i);
        let k = choose|k: int| 0 <= k < rest.len() && rest[k] == n;
        if !rs.last().seen && rs.last().priority is Some {
            assert(unseen_revocations(rs)[k] == n);
        } else {
            assert(unseen_revocations(rs)[k] == n);
        }
    }
}

proof fn lemma_non_admissions_keep(ns: Seq<Notice>, k: int)
    requires
        0 <= k < ns.len(),
        !is_admission(ns[k]),
    ensures
        non_admissions(ns).contains(ns[k]),
    decreases ns.len(),
{
    let rest = non_admissions(ns.drop_last());
    if k == ns.len() - 1 {
        assert(non_admissions(ns)[rest.len() as int] == ns[k]);
    } else {
        assert(ns.drop_last()[k] == ns[k]);
        lemma_non_admissions_keep(ns.drop_last(), k);
        let j = choose|j: int| 0 <= j < rest.len() && rest[j] == ns[k];
        assert(non_admissions(ns)[j] == ns[k]);
    }
}

/// The end of a pass revokes every image that is still wanted, visible or
/// prefetched, at a location whose marker the pass did not see: the
/// notices then hold a revocation (priority `None`) of that image.
/// With `lemma_finish_adds_one_revocation_per_unseen_wanted`, the end of a
/// pass adds no more revocations than there are such reports.
pub proof fn lemma_finish_revokes_unseen_wanted(v: InventoryView, i: int)
    requires
        0 <= i < v.reports.len(),
        !v.reports[i].seen,
        v.reports[i].priority is Some,
    ensures
        finish_step(v).notices.contains(Notice::Image { image: v.reports[i].image, priority: None }),
{
    reveal(finish_step);
    let n = Notice::Image { image: v.reports[i].image, priority: None };
    let rev = unseen_revocations(v.reports);
    lemma_unseen_revocations_cover(v.reports, i);
    let j = choose|j: int| 0 <= j < rev.len() && rev[j] == n;
    let all = v.notices + rev;
    assert(all[v.notices.len() + j] == n);
    lemma_non_admissions_keep(all, v.notices.len() + j);
    let na = non_admissions(all);
    let k = choose|k: int| 0 <= k < na.len() && na[k] == n;
    let ordered = na + admissions(all);
    assert(ordered[k] == n);
    let changed = !same_grid_spec(v.grid, v.measured_grid);
    if changed && v.measured_grid is Some {
        assert(ordered.push(Notice::Grid(v.measured_grid->0))[k] == n);
    }
}

/// A report whose marker the pass did not see while its image is still
/// wanted, visible or prefetched.
pub open spec fn wanted_unseen(r: ReportView) -> bool {
    !r.seen && r.priority is Some
}

proof fn lemma_unseen_revocations_len(rs: Seq<ReportView>)
    ensures
        unseen_revocations(rs).len() == rs.filter(|r: ReportView| wanted_unseen(r)).len(),
    decreases rs.len(),
{
    reveal(Seq::filter);
    if rs.len() > 0 {
        lemma_unseen_revocations_len(rs.drop_last());
    }
}

proof fn lemma_partition_len(ns: Seq<Notice>)
    ensures
        non_admissions(ns).len() + admissions(ns).len() == ns.len(),
    decreases ns.len(),
{
    if ns.len() > 0 {
        lemma_partition_len(ns.drop_last());
    }
}

/// The end of a pass adds exactly one notice per report that is still
/// wanted but went unseen (its revocation), plus the grid measurement when
/// that changed; the queued notices are only reordered, none is lost.
pub proof fn lemma_finish_adds_one_revocation_per_unseen_wanted(v: InventoryView)
    ensures
        finish_step(v).notices.len() == v.notices.len() + v.reports.filter(
            |r: ReportView| wanted_unseen(r),
        ).len() + (if !same_grid_spec(v.grid, v.measured_grid) && v.measured_grid is Some {
            1int
        } else {
            0int
        }),
{
    reveal(finish_step);
    lemma_unseen_revocations_len(v.reports);
    lemma_partition_len(v.notices + unseen_revocations(v.reports));
}

} // verus!
