//! Named time-series datasets and the markers rendered for them: one
//! marker per data point, placed with the coordinate mapper.

use vstd::prelude::*;
use crate::config::{ConfigError, LineStyle};
use crate::mapper::{
    date_to_x, value_to_y, DAYS_PER_UNIT_DEN, DAYS_PER_UNIT_NUM, VERTICAL_SCALE,
};
use crate::rat::{Rat, fits_i128, in_bound, lemma_mul_bound, ZOOM_BOUND};

verus! {

/// On-screen marker side length, in pixels.
pub const MARKER_SIZE_PX: u32 = 5;

/// One observation in a time series: a calendar date, as whole days
/// since the epoch (January 1st, 2000), and the measured value.
#[derive(Clone, Copy, PartialEq, Eq, Structural, Debug)]
pub struct DataPoint {
    pub date_days: i64,
    pub value: Rat,
}

impl DataPoint {
    /// A valid point: a representable value whose scaled y coordinate
    /// is representable too.
    pub open spec fn wf(self) -> bool {
        &&& self.value.wf()
        &&& fits_i128(self.value.num * VERTICAL_SCALE)
    }
}

/// All points of a dataset are valid.
pub open spec fn points_all_wf(pts: Seq<DataPoint>) -> bool {
    forall|m: int| 0 <= m < pts.len() ==> (#[trigger] pts[m]).wf()
}

/// The shared repository of named datasets: populated once at load
/// time and read-only afterwards. Dataset keys are unique.
pub struct TimeseriesRepository {
    entries: Vec<(String, Vec<DataPoint>)>,
}

impl TimeseriesRepository {
    /// A dataset is registered under this key.
    pub closed spec fn contains_key(self, k: Seq<char>) -> bool {
        exists|j: int| 0 <= j < self.entries@.len() && self.entries@[j].0@ == k
    }

    /// The points registered under a key the repository contains.
    pub closed spec fn points_for(self, k: Seq<char>) -> Seq<DataPoint> {
        self.entries@[choose|j: int|
            0 <= j < self.entries@.len() && self.entries@[j].0@ == k].1@
    }

    /// How many datasets are registered.
    pub closed spec fn dataset_count(self) -> nat {
        self.entries@.len()
    }

    /// Keys are pairwise distinct and every stored point is valid.
    pub closed spec fn wf(self) -> bool {
        &&& forall|j1: int, j2: int|
            0 <= j1 < j2 < self.entries@.len() ==> (#[trigger] self.entries@[j1]).0@ != (
            #[trigger] self.entries@[j2]).0@
        &&& forall|j: int|
            0 <= j < self.entries@.len() ==> points_all_wf((#[trigger] self.entries@[j]).1@)
    }

    /// With unique keys, the entry at position `j` is the one
    /// `points_for` denotes for its own key.
    proof fn lemma_points_for_at(self, j: int)
        requires
            self.wf(),
            0 <= j < self.entries@.len(),
        ensures
            self.contains_key(self.entries@[j].0@),
            self.points_for(self.entries@[j].0@) == self.entries@[j].1@,
    {
        let k = self.entries@[j].0@;
        assert(self.contains_key(k));
        let jj = choose|jj: int| 0 <= jj < self.entries@.len() && self.entries@[jj].0@ == k;
        if jj < j {
            assert(self.entries@[jj].0@ != self.entries@[j].0@);
        } else if j < jj {
            assert(self.entries@[j].0@ != self.entries@[jj].0@);
        }
        assert(jj == j);
    }

    /// An empty repository, to be populated once at load time.
    pub fn new() -> (r: TimeseriesRepository)
        ensures
            r.wf(),
            r.dataset_count() == 0,
            forall|k: Seq<char>| !r.contains_key(k),
    {
        TimeseriesRepository { entries: Vec::new() }
    }

    /// Whether a dataset is registered under the key.
    pub fn contains(&self, key: &String) -> (r: bool)
        requires
            self.wf(),
        ensures
            r == self.contains_key(key@),
    {
        let n = self.entries.len();
        let mut i: usize = 0;
        while i < n
            invariant
                n == self.entries@.len(),
                i <= n,
                forall|j: int| 0 <= j < i ==> (#[trigger] self.entries@[j]).0@ != key@,
            decreases n - i,
        {
            if self.entries[i].0 == *key {
                return true;
            }
            i = i + 1;
        }
        false
    }

    /// Registers a dataset under a new key. Registering a key twice is
    /// a configuration error; the repository is left unchanged.
    pub fn insert(&mut self, key: String, points: Vec<DataPoint>) -> (r: Result<(), ConfigError>)
        requires
            old(self).wf(),
            points_all_wf(points@),
        ensures
            final(self).wf(),
            r is Ok <==> !old(self).contains_key(key@),
            final(self).contains_key(key@),
            r matches Err(e) ==> e == ConfigError::DuplicateKey && *final(self) == *old(self),
            r is Ok ==> final(self).dataset_count() == old(self).dataset_count() + 1,
            r is Ok ==> final(self).points_for(key@) == points@,
            r is Ok ==> forall|k: Seq<char>|
                k != key@ ==> (final(self).contains_key(k) <==> old(self).contains_key(k)),
            r is Ok ==> forall|k: Seq<char>|
                old(self).contains_key(k) ==> final(self).points_for(k) == old(self).points_for(k),
    {
        if self.contains(&key) {
            return Result::Err(ConfigError::DuplicateKey);
        }
        let ghost pre = *self;
        let ghost keyv = key@;
        let ghost pointsv = points@;
        self.entries.push((key, points));
        proof {
            let n = pre.entries@.len() as int;
            assert(self.entries@ == pre.entries@.push((key, points)));
            assert(self.entries@[n].0@ == keyv);
            assert forall|j1: int, j2: int| 0 <= j1 < j2 < self.entries@.len() implies (
                #[trigger] self.entries@[j1]).0@ != (#[trigger] self.entries@[j2]).0@ by {
                if j2 < n {
                    assert(pre.entries@[j1].0@ != pre.entries@[j2].0@);
                } else {
                    // j2 is the new entry; its key matches no earlier one,
                    // else the duplicate check would have fired.
                    assert(self.entries@[j1] == pre.entries@[j1]);
                    if pre.entries@[j1].0@ == keyv {
                        assert(pre.contains_key(keyv));
                    }
                }
            }
            assert forall|j: int| 0 <= j < self.entries@.len() implies points_all_wf((
                #[trigger] self.entries@[j]).1@) by {
                if j < n {
                    assert(points_all_wf(pre.entries@[j].1@));
                }
            }
            self.lemma_points_for_at(n);
            assert(self.points_for(keyv) == pointsv);
            assert forall|k: Seq<char>| k != keyv implies (self.contains_key(k)
                <==> pre.contains_key(k)) by {
                if self.contains_key(k) {
                    let j = choose|j: int|
                        0 <= j < self.entries@.len() && self.entries@[j].0@ == k;
                    assert(j < n);
                    assert(pre.contains_key(k));
                }
                if pre.contains_key(k) {
                    let j = choose|j: int| 0 <= j < pre.entries@.len() && pre.entries@[j].0@ == k;
                    assert(self.entries@[j].0@ == k);
                }
            }
            assert forall|k: Seq<char>| pre.contains_key(k) implies self.points_for(k)
                == pre.points_for(k) by {
                let j = choose|j: int| 0 <= j < pre.entries@.len() && pre.entries@[j].0@ == k;
                pre.lemma_points_for_at(j);
                self.lemma_points_for_at(j);
            }
        }
        Result::Ok(())
    }

    /// Looks a dataset up by key, returning its ordered points.
    pub fn lookup(&self, key: &String) -> (r: Option<&Vec<DataPoint>>)
        requires
            self.wf(),
        ensures
            r is Some <==> self.contains_key(key@),
            r matches Some(v) ==> v@ == self.points_for(key@) && points_all_wf(v@),
    {
        let n = self.entries.len();
        let mut i: usize = 0;
        while i < n
            invariant
                self.wf(),
                n == self.entries@.len(),
                i <= n,
                forall|j: int| 0 <= j < i ==> (#[trigger] self.entries@[j]).0@ != key@,
            decreases n - i,
        {
            if self.entries[i].0 == *key {
                proof {
                    self.lemma_points_for_at(i as int);
                }
                return Option::Some(&self.entries[i].1);
            }
            i = i + 1;
        }
        Option::None
    }
}

/// A named reference to a dataset, plus the visual style its markers
/// are drawn with and the marker-size policy.
pub struct TimeseriesHandle {
    pub data_key: String,
    pub style: LineStyle,
    /// When true, the marker size is re-derived from the zoom scale
    /// every frame; when false, each marker keeps the size sampled once
    /// at registration time.
    pub recompute_marker_size_on_zoom: bool,
}

/// One marker to draw: world-space position, side length and style.
#[derive(Clone, Copy, PartialEq, Eq, Structural, Debug)]
#[verifier::ext_equal]
pub struct Marker {
    pub x: Rat,
    pub y: Rat,
    pub size: Rat,
    pub style: LineStyle,
}

/// Every field of the marker for one data point, pinned exactly: the
/// position is `(date_to_x(date), value_to_y(value))` and the side
/// length is `MARKER_SIZE_PX` pixels converted to world units at the
/// given zoom.
pub open spec fn marker_at(pt: DataPoint, zoom: Rat, style: LineStyle, m: Marker) -> bool {
    &&& m.x.num == pt.date_days * DAYS_PER_UNIT_DEN
    &&& m.x.den == DAYS_PER_UNIT_NUM
    &&& m.y.num == pt.value.num * VERTICAL_SCALE
    &&& m.y.den == pt.value.den
    &&& m.size.num == MARKER_SIZE_PX * zoom.den
    &&& m.size.den == zoom.num
    &&& m.style == style
}

/// One marker per data point, in dataset order.
pub open spec fn markers_match(
    points: Seq<DataPoint>,
    zoom: Rat,
    style: LineStyle,
    ms: Seq<Marker>,
) -> bool {
    &&& ms.len() == points.len()
    &&& forall|k: int| 0 <= k < ms.len() ==> marker_at(points[k], zoom, style, #[trigger] ms[k])
}

/// Generates the markers for a newly registered handle: one per data
/// point of the referenced dataset, sized at the zoom scale sampled
/// now. A key that was never loaded is a fatal configuration error,
/// reported immediately — never silently rendered as zero markers.
pub fn compute_markers(
    repo: &TimeseriesRepository,
    handle: &TimeseriesHandle,
    zoom: &Rat,
) -> (r: Result<Vec<Marker>, ConfigError>)
    requires
        repo.wf(),
        zoom.wf(),
        zoom.num > 0,
        in_bound(*zoom, ZOOM_BOUND as int),
    ensures
        r is Ok <==> repo.contains_key(handle.data_key@),
        r matches Ok(ms) ==> markers_match(
            repo.points_for(handle.data_key@),
            *zoom,
            handle.style,
            ms@,
        ),
        r matches Err(e) ==> e == ConfigError::MissingDataset,
{
    let pts = match repo.lookup(&handle.data_key) {
        Option::Some(p) => p,
        Option::None => {
            return Result::Err(ConfigError::MissingDataset);
        },
    };
    proof {
        lemma_mul_bound(MARKER_SIZE_PX as int, zoom.den as int, MARKER_SIZE_PX as int, ZOOM_BOUND as int);
    }
    let size = Rat { num: (MARKER_SIZE_PX as i128) * zoom.den, den: zoom.num };
    let mut ms: Vec<Marker> = Vec::new();
    let n = pts.len();
    let mut idx: usize = 0;
    while idx < n
        invariant
            n == pts@.len(),
            idx <= n,
            ms@.len() == idx,
            points_all_wf(pts@),
            zoom.wf(),
            zoom.num > 0,
            size.num == MARKER_SIZE_PX * zoom.den,
            size.den == zoom.num,
            forall|k: int|
                0 <= k < idx ==> marker_at(pts@[k], *zoom, handle.style, #[trigger] ms@[k]),
        decreases n - idx,
    {
        let pt = pts[idx];
        let x = date_to_x(pt.date_days);
        let y = value_to_y(&pt.value);
        ms.push(Marker { x, y, size, style: handle.style });
        idx = idx + 1;
    }
    Result::Ok(ms)
}

/// The marker side length to draw this frame under the given policy:
/// re-derived from the current zoom scale when `recompute` is set,
/// otherwise the size sampled at registration time.
pub fn current_marker_size(registered: &Rat, recompute: bool, zoom_now: &Rat) -> (r: Rat)
    requires
        registered.wf(),
        zoom_now.wf(),
        zoom_now.num > 0,
        in_bound(*zoom_now, ZOOM_BOUND as int),
    ensures
        recompute ==> r.num == MARKER_SIZE_PX * zoom_now.den && r.den == zoom_now.num,
        !recompute ==> r == *registered,
        r.wf(),
{
    if recompute {
        proof {
            lemma_mul_bound(
                MARKER_SIZE_PX as int,
                zoom_now.den as int,
                MARKER_SIZE_PX as int,
                ZOOM_BOUND as int,
            );
        }
        Rat { num: (MARKER_SIZE_PX as i128) * zoom_now.den, den: zoom_now.num }
    } else {
        *registered
    }
}

} // verus!
