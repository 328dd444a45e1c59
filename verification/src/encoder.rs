//! Stateful builder turning tile-space integer points into the compact
//! command/parameter word stream, and the immutable buffer it produces.

use vstd::prelude::*;

use crate::codec::Command;
use crate::codec::CommandInt;
use crate::codec::MAX_COMMAND_COUNT;
use crate::codec::ParamInt;
use crate::codec::cmd_word;
use crate::codec::lemma_cmd_word_fields;
use crate::codec::word_count;
use crate::codec::word_id;
use crate::codec::zigzag;
use crate::error::Error;

verus! {

/// Clamp `v` into `[lo, hi]`.
pub open spec fn clamp_spec(v: i32, lo: i32, hi: i32) -> i32 {
    if v < lo {
        lo
    } else if v > hi {
        hi
    } else {
        v
    }
}

/// Saturating subtraction on `i32`: the exact difference where it is
/// representable, else the nearest representable bound.
pub open spec fn sat_sub_spec(a: i32, b: i32) -> i32 {
    if a - b < i32::MIN {
        i32::MIN
    } else if a - b > i32::MAX {
        i32::MAX
    } else {
        (a - b) as i32
    }
}

/// The tile point an input point maps to: each axis clamped to the derived
/// clamp bounds.
pub open spec fn tile_pt(pre: EncView, x: i32, y: i32) -> (i32, i32) {
    (clamp_spec(x, pre.x_min, pre.x_max), clamp_spec(y, pre.y_min, pre.y_max))
}

/// The two parameter words a point `p` contributes: the zigzag-encoded
/// saturating deltas from the previously pushed point (the origin when no
/// point was pushed yet).
pub open spec fn delta_pair(base: Option<(i32, i32)>, p: (i32, i32)) -> Seq<u32> {
    let b = match base {
        Some(q) => q,
        None => (0i32, 0i32),
    };
    seq![zigzag(sat_sub_spec(p.0, b.0)), zigzag(sat_sub_spec(p.1, b.1))]
}

/// The three points share an axis and the middle one lies strictly between
/// the other two on that axis, in one consistent direction: the middle point
/// of a straight monotone run.
pub open spec fn collinear_step(p0: (i32, i32), p1: (i32, i32), p: (i32, i32)) -> bool {
    ||| (p0.0 == p1.0 && p1.0 == p.0 && ((p0.1 < p1.1 && p1.1 < p.1) || (p0.1 > p1.1 && p1.1
        > p.1)))
    ||| (p0.1 == p1.1 && p1.1 == p.1 && ((p0.0 < p1.0 && p1.0 < p.0) || (p0.0 > p1.0 && p1.0
        > p.0)))
}

/// The command words that adding a point to a part with `count` points
/// emits: a move command opens a part, a line command follows the first
/// point of a linestring or polygon part, nothing afterwards.
pub open spec fn add_cmds(tp: GeomType, count: u32) -> Seq<u32> {
    match tp {
        GeomType::Point => if count == 0 {
            seq![cmd_word(1, 1)]
        } else {
            Seq::empty()
        },
        _ => if count == 0 {
            seq![cmd_word(1, 1)]
        } else if count == 1 {
            seq![cmd_word(2, 1)]
        } else {
            Seq::empty()
        },
    }
}

/// How one `add_point` call steps the encoder state: the new point is
/// clamped; a duplicate of the current tile point is folded into the part
/// (first point) or dropped (later points); a point extending a straight
/// monotone run in a polygon part replaces the middle point; any other point
/// is pushed after the command words the part still owes.
pub open spec fn add_spec(pre: EncView, post: EncView, x: i32, y: i32) -> bool {
    let c = tile_pt(pre, x, y);
    &&& post.geom_tp == pre.geom_tp
    &&& post.x_min == pre.x_min
    &&& post.x_max == pre.x_max
    &&& post.y_min == pre.y_min
    &&& post.y_max == pre.y_max
    &&& if pre.pt1 == Some(c) {
        // the tile point repeats the current one
        &&& post.data == pre.data
        &&& post.pt0 == pre.pt0
        &&& post.pt1 == pre.pt1
        &&& post.count == (if pre.count == 0 {
            1u32
        } else {
            pre.count
        })
    } else if pre.geom_tp == GeomType::Polygon && pre.count >= 2 && pre.pt0 is Some
        && pre.pt1 is Some && collinear_step(pre.pt0->0, pre.pt1->0, c) {
        // the middle point of the straight run is removed
        &&& post.data == pre.data.take(pre.data.len() - 2) + delta_pair(pre.pt0, c)
        &&& post.pt0 == pre.pt0
        &&& post.pt1 == Some(c)
        &&& post.count == pre.count
    } else {
        &&& post.data == pre.data + add_cmds(pre.geom_tp, pre.count) + delta_pair(pre.pt1, c)
        &&& post.pt0 == pre.pt1
        &&& post.pt1 == Some(c)
        &&& post.count == pre.count + 1
    }
}

/// The word stream after part completion: the owing command word's count is
/// patched to what the part accumulated, and a completed polygon part gains
/// a close-path word.  A part of zero or one points (beyond the one a move
/// command already covers) needs no patch.
pub open spec fn completed_data(v: EncView) -> Seq<u32> {
    let c = v.count as int;
    match v.geom_tp {
        GeomType::Point => if v.count == 0 {
            v.data
        } else {
            v.data.update(0, cmd_word(1, v.count))
        },
        GeomType::Linestring => if v.count > 1 {
            v.data.update(v.data.len() - 2 * (c - 1) - 1, cmd_word(2, (v.count - 1) as u32))
        } else {
            v.data
        },
        GeomType::Polygon => if v.count > 1 {
            v.data.update(v.data.len() - 2 * (c - 1) - 1, cmd_word(2, (v.count - 1) as u32)).push(
                cmd_word(7, 1),
            )
        } else {
            v.data
        },
    }
}

/// Geometry types for features.
#[derive(Clone, Copy, Debug, Default, Eq, PartialEq, Structural)]
pub enum GeomType {
    /// Point or Multipoint
    #[default]
    Point,
    /// Linestring or Multilinestring
    Linestring,
    /// Polygon or Multipolygon
    Polygon,
}

/// Abstract state of a [`GeomEncoder`]: its configuration, the last two
/// emitted tile points, the current part's point count, and the word stream
/// built so far.
pub ghost struct EncView {
    /// Geometry type
    pub geom_tp: GeomType,
    /// Minimum X value
    pub x_min: i32,
    /// Maximum X value
    pub x_max: i32,
    /// Minimum Y value
    pub y_min: i32,
    /// Maximum Y value
    pub y_max: i32,
    /// Previous tile point
    pub pt0: Option<(i32, i32)>,
    /// Current tile point
    pub pt1: Option<(i32, i32)>,
    /// Count of points in the current part
    pub count: u32,
    /// Encoded geometry data
    pub data: Seq<u32>,
}

/// The word grammar of finished geometry: a sequence of blocks, each one
/// command word followed by exactly `2 * count` parameter words (none for a
/// close-path command).
pub open spec fn valid_geom(s: Seq<u32>) -> bool
    decreases s.len(),
{
    if s.len() == 0 {
        true
    } else {
        let id = word_id(s[0]);
        if id == 7 {
            valid_geom(s.skip(1))
        } else if id == 1 || id == 2 {
            &&& s.len() >= 1 + 2 * (word_count(s[0]) as int)
            &&& valid_geom(s.skip(1 + 2 * (word_count(s[0]) as int)))
        } else {
            false
        }
    }
}

/// Valid word sequences are closed under concatenation.
pub proof fn lemma_valid_geom_concat(a: Seq<u32>, b: Seq<u32>)
    requires
        valid_geom(a),
        valid_geom(b),
    ensures
        valid_geom(a + b),
    decreases a.len(),
{
    if a.len() == 0 {
        assert(a + b =~= b);
    } else {
        let id = word_id(a[0]);
        let k: int = if id == 7 {
            1
        } else {
            1 + 2 * (word_count(a[0]) as int)
        };
        lemma_valid_geom_concat(a.skip(k), b);
        assert((a + b).skip(k) =~= a.skip(k) + b);
        assert((a + b)[0] == a[0]);
    }
}

/// A move or line block (one command word, `2 * count` parameter words) in
/// front of a valid sequence leaves it valid.
pub proof fn lemma_valid_move_line_block(s: Seq<u32>, rest: Seq<u32>)
    requires
        s.len() >= 1,
        word_id(s[0]) == 1 || word_id(s[0]) == 2,
        s.len() == 1 + 2 * (word_count(s[0]) as int),
        valid_geom(rest),
    ensures
        valid_geom(s + rest),
{
    assert((s + rest).skip(1 + 2 * (word_count(s[0]) as int)) =~= rest);
    assert((s + rest)[0] == s[0]);
}

/// A close-path word in front of a valid sequence leaves it valid.
pub proof fn lemma_valid_close_block(w: u32, rest: Seq<u32>)
    requires
        word_id(w) == 7,
        valid_geom(rest),
    ensures
        valid_geom(seq![w] + rest),
{
    assert((seq![w] + rest).skip(1) =~= rest);
    assert((seq![w] + rest)[0] == w);
}

/// A completed part's words form valid blocks: an optional move block of
/// one point, then (for two or more points) a line block whose patched
/// count matches its parameter pairs.
proof fn lemma_part_blocks_valid(part: Seq<u32>, fresh: bool, c: int)
    requires
        c >= 1,
        fresh ==> part.len() >= 3 && word_id(part[0]) == 1 && word_count(part[0]) == 1,
        part.len() as int == (if fresh {
            3int
        } else {
            0int
        }) + (if c >= 2 {
            1 + 2 * (c - 1)
        } else {
            0int
        }),
        c >= 2 ==> word_id(
            part[(if fresh {
                3int
            } else {
                0int
            })],
        ) == 2 && word_count(
            part[(if fresh {
                3int
            } else {
                0int
            })],
        ) as int == c - 1,
    ensures
        valid_geom(part),
{
    let base: int = if fresh {
        3
    } else {
        0
    };
    if c >= 2 {
        let tail = part.skip(base);
        assert(tail[0] == part[base]);
        lemma_valid_move_line_block(tail, Seq::empty());
        assert(tail + Seq::<u32>::empty() =~= tail);
        if fresh {
            let head = part.take(3);
            assert(head[0] == part[0]);
            lemma_valid_move_line_block(head, tail);
            assert(head + tail =~= part);
        } else {
            assert(tail =~= part);
        }
    } else {
        if fresh {
            lemma_valid_move_line_block(part, Seq::empty());
            assert(part + Seq::<u32>::empty() =~= part);
        } else {
            assert(part.len() == 0);
        }
    }
}

/// Clamp a coordinate to the derived clamp bounds of one axis.
fn clamp_i32(v: i32, lo: i32, hi: i32) -> (r: i32)
    requires
        lo <= hi,
    ensures
        r == clamp_spec(v, lo, hi),
{
    if v < lo {
        lo
    } else if v > hi {
        hi
    } else {
        v
    }
}

/// Saturating subtraction on `i32`, so deltas against extreme clamp values
/// never overflow the signed range.
fn sat_sub_i32(a: i32, b: i32) -> (r: i32)
    ensures
        r == sat_sub_spec(a, b),
{
    let d: i64 = (a as i64) - (b as i64);
    if d < i32::MIN as i64 {
        i32::MIN
    } else if d > i32::MAX as i64 {
        i32::MAX
    } else {
        d as i32
    }
}

/// Proof bookkeeping for the encoder: where the finished part of the stream
/// ends, and whether the current part opened with its own move command.
pub ghost struct PartTrack {
    /// Words before this index form completed, valid blocks.
    pub done_len: int,
    /// The current part pushed a move command of its own (it did not fold its
    /// first point into the previous part's last point).
    pub fresh: bool,
}

/// Encoder for feature geometry.
///
/// This can consist of Point, Linestring or Polygon data, in tile-space
/// integer coordinates.
pub struct GeomEncoder {
    /// Geometry type
    geom_tp: GeomType,
    /// Minimum X value
    x_min: i32,
    /// Maximum X value
    x_max: i32,
    /// Minimum Y value
    y_min: i32,
    /// Maximum Y value
    y_max: i32,
    /// Previous tile point
    pt0: Option<(i32, i32)>,
    /// Current tile point
    pt1: Option<(i32, i32)>,
    /// Command offset
    cmd_offset: usize,
    /// Count of geometry data
    count: u32,
    /// Encoded geometry data
    data: Vec<u32>,
    /// Proof bookkeeping for the well-formedness invariant
    part: Ghost<PartTrack>,
}

impl View for GeomEncoder {
    type V = EncView;

    closed spec fn view(&self) -> EncView {
        EncView {
            geom_tp: self.geom_tp,
            x_min: self.x_min,
            x_max: self.x_max,
            y_min: self.y_min,
            y_max: self.y_max,
            pt0: self.pt0,
            pt1: self.pt1,
            count: self.count,
            data: self.data@,
        }
    }
}

impl GeomEncoder {
    /// Well-formedness of the encoder state: the clamp bounds are ordered,
    /// the part count fits a command word's count field, and the word stream
    /// is a valid sequence of finished blocks followed by the current part's
    /// in-progress blocks.
    pub closed spec fn wf(self) -> bool {
        let d = self.data@;
        let n = d.len() as int;
        let dl = self.part@.done_len;
        let c = self.count as int;
        &&& self.count <= MAX_COMMAND_COUNT
        &&& self.x_min <= self.x_max
        &&& self.y_min <= self.y_max
        &&& match self.geom_tp {
            GeomType::Point => {
                if self.count == 0 {
                    n == 0 && self.pt1 is None
                } else {
                    &&& n == 1 + 2 * c
                    &&& word_id(d[0]) == 1
                    &&& self.cmd_offset == 0
                }
            },
            _ => {
                &&& 0 <= dl <= n
                &&& valid_geom(d.take(dl))
                &&& (self.count == 0 ==> dl == n)
                &&& (self.count >= 1 ==> {
                    let base: int = if self.part@.fresh {
                        dl + 3
                    } else {
                        dl
                    };
                    &&& (self.part@.fresh ==> {
                        &&& n >= dl + 3
                        &&& word_id(d[dl]) == 1
                        &&& word_count(d[dl]) == 1
                        &&& (self.count == 1 ==> self.cmd_offset == dl)
                    })
                    &&& n == base + (if c >= 2 {
                        1 + 2 * (c - 1)
                    } else {
                        0
                    })
                    &&& (self.count >= 2 ==> {
                        &&& word_id(d[base]) == 2
                        &&& word_count(d[base]) == 1
                        &&& self.cmd_offset == base
                    })
                })
            },
        }
    }

    /// Create a new geometry encoder.
    ///
    /// * `geom_tp` Geometry type.
    pub fn new(geom_tp: GeomType) -> (r: Self)
        ensures
            r.wf(),
            r@.geom_tp == geom_tp,
            r@.x_min == i32::MIN,
            r@.x_max == i32::MAX,
            r@.y_min == i32::MIN,
            r@.y_max == i32::MAX,
            r@.pt0 is None,
            r@.pt1 is None,
            r@.count == 0,
            r@.data.len() == 0,
    {
        GeomEncoder {
            geom_tp,
            x_min: i32::MIN,
            x_max: i32::MAX,
            y_min: i32::MIN,
            y_max: i32::MAX,
            pt0: None,
            pt1: None,
            cmd_offset: 0,
            count: 0,
            data: Vec::new(),
            part: Ghost(PartTrack { done_len: 0, fresh: true }),
        }
    }

    /// Replace the derived clamp bounds with the per-axis minimum and
    /// maximum of two transformed clip-boundary corners (which handles
    /// transforms that flip an axis).  Already-emitted points are not
    /// altered.
    pub fn adjust_minmax(&mut self, x0: i32, y0: i32, x1: i32, y1: i32)
        requires
            old(self).wf(),
        ensures
            final(self).wf(),
            final(self)@.x_min == (if x0 <= x1 { x0 } else { x1 }),
            final(self)@.x_max == (if x0 <= x1 { x1 } else { x0 }),
            final(self)@.y_min == (if y0 <= y1 { y0 } else { y1 }),
            final(self)@.y_max == (if y0 <= y1 { y1 } else { y0 }),
            final(self)@.geom_tp == old(self)@.geom_tp,
            final(self)@.pt0 == old(self)@.pt0,
            final(self)@.pt1 == old(self)@.pt1,
            final(self)@.count == old(self)@.count,
            final(self)@.data == old(self)@.data,
    {
        if x0 <= x1 {
            self.x_min = x0;
            self.x_max = x1;
        } else {
            self.x_min = x1;
            self.x_max = x0;
        }
        if y0 <= y1 {
            self.y_min = y0;
            self.y_max = y1;
        } else {
            self.y_min = y1;
            self.y_max = y0;
        }
    }

    /// Push a Command
    fn push_command(&mut self, cmd: Command)
        ensures
            final(self).data@ == old(self).data@ + seq![cmd_word(cmd.spec_id(), 1)],
            final(self).cmd_offset == old(self).data@.len(),
            final(self).geom_tp == old(self).geom_tp,
            final(self).x_min == old(self).x_min,
            final(self).x_max == old(self).x_max,
            final(self).y_min == old(self).y_min,
            final(self).y_max == old(self).y_max,
            final(self).pt0 == old(self).pt0,
            final(self).pt1 == old(self).pt1,
            final(self).count == old(self).count,
            final(self).part == old(self).part,
    {
        self.cmd_offset = self.data.len();
        self.data.push(CommandInt::new(cmd, 1).encode());
    }

    /// Set count of the most recent Command.
    fn set_command_count(&mut self, count: u32)
        requires
            old(self).cmd_offset < old(self).data@.len(),
            word_id(old(self).data@[old(self).cmd_offset as int]) == 1 || word_id(
                old(self).data@[old(self).cmd_offset as int],
            ) == 2 || word_id(old(self).data@[old(self).cmd_offset as int]) == 7,
            count <= MAX_COMMAND_COUNT,
        ensures
            final(self).data@ == old(self).data@.update(
                old(self).cmd_offset as int,
                cmd_word(word_id(old(self).data@[old(self).cmd_offset as int]), count),
            ),
            final(self).cmd_offset == old(self).cmd_offset,
            final(self).geom_tp == old(self).geom_tp,
            final(self).x_min == old(self).x_min,
            final(self).x_max == old(self).x_max,
            final(self).y_min == old(self).y_min,
            final(self).y_max == old(self).y_max,
            final(self).pt0 == old(self).pt0,
            final(self).pt1 == old(self).pt1,
            final(self).count == old(self).count,
            final(self).part == old(self).part,
    {
        let off = self.cmd_offset;
        let word = self.data[off];
        match CommandInt::decode(word) {
            Ok(cmd) => {
                let new_word = CommandInt::new(cmd.id, count).encode();
                self.data[off] = new_word;
            },
            Err(_) => {
                proof {
                    assert(false);
                }
            },
        }
    }

    /// Push one point with relative coordinates.
    fn push_point(&mut self, x: i32, y: i32)
        requires
            old(self).count < MAX_COMMAND_COUNT,
        ensures
            final(self).data@ == old(self).data@ + delta_pair(old(self).pt1, (x, y)),
            final(self).pt0 == old(self).pt1,
            final(self).pt1 == Some((x, y)),
            final(self).count == old(self).count + 1,
            final(self).cmd_offset == old(self).cmd_offset,
            final(self).geom_tp == old(self).geom_tp,
            final(self).x_min == old(self).x_min,
            final(self).x_max == old(self).x_max,
            final(self).y_min == old(self).y_min,
            final(self).y_max == old(self).y_max,
            final(self).part == old(self).part,
    {
        self.pt0 = self.pt1;
        let (px, py) = match self.pt0 {
            Some(p) => p,
            None => (0, 0),
        };
        self.data.push(ParamInt::new(sat_sub_i32(x, px)).encode());
        self.data.push(ParamInt::new(sat_sub_i32(y, py)).encode());
        self.pt1 = Some((x, y));
        self.count = self.count + 1;
        proof {
            assert(self.data@ =~= old(self).data@ + delta_pair(old(self).pt1, (x, y)));
        }
    }

    /// Pop most recent point.
    fn pop_point(&mut self)
        requires
            old(self).data@.len() >= 2,
            old(self).count >= 1,
        ensures
            final(self).data@ == old(self).data@.take(old(self).data@.len() - 2),
            final(self).pt0 == old(self).pt0,
            final(self).pt1 == old(self).pt0,
            final(self).count == old(self).count - 1,
            final(self).cmd_offset == old(self).cmd_offset,
            final(self).geom_tp == old(self).geom_tp,
            final(self).x_min == old(self).x_min,
            final(self).x_max == old(self).x_max,
            final(self).y_min == old(self).y_min,
            final(self).y_max == old(self).y_max,
            final(self).part == old(self).part,
    {
        let _ = self.data.pop();
        let _ = self.data.pop();
        self.pt1 = self.pt0;
        self.count = self.count - 1;
        proof {
            assert(self.data@ =~= old(self).data@.take(old(self).data@.len() - 2));
        }
    }

    /// Check if point should be simplified: it extends a straight
    /// horizontal or vertical monotone run through the two most recently
    /// emitted points.
    fn should_simplify_point(&self, x: i32, y: i32) -> (r: bool)
        ensures
            r == (self@.pt0 is Some && self@.pt1 is Some && collinear_step(
                self@.pt0->0,
                self@.pt1->0,
                (x, y),
            )),
    {
        if let (Some((p0x, p0y)), Some((p1x, p1y))) = (self.pt0, self.pt1) {
            if p0x == p1x && p1x == x {
                return (p0y < p1y && p1y < y) || (p0y > p1y && p1y > y);
            }
            if p0y == p1y && p1y == y {
                return (p0x < p1x && p1x < x) || (p0x > p1x && p1x > x);
            }
        }
        false
    }

    /// Add a point, in tile-space coordinates.
    ///
    /// The point is clamped to the derived clamp bounds; duplicates of the
    /// current tile point are folded into the part or dropped; in a polygon
    /// part a point extending a straight monotone run replaces the run's
    /// middle point; any other point is pushed as two parameter words after
    /// the command words the part still owes.
    pub fn add_point(&mut self, x: i32, y: i32) -> (r: Result<(), Error>)
        requires
            old(self).wf(),
            old(self)@.count < MAX_COMMAND_COUNT,
        ensures
            final(self).wf(),
            r is Ok,
            add_spec(old(self)@, final(self)@, x, y),
    {
        let px = clamp_i32(x, self.x_min, self.x_max);
        let py = clamp_i32(y, self.y_min, self.y_max);
        proof {
            lemma_cmd_word_fields(1, 1);
            lemma_cmd_word_fields(2, 1);
        }
        let redundant = match self.pt1 {
            Some((qx, qy)) => qx == px && qy == py,
            None => false,
        };
        if redundant {
            if self.count == 0 {
                // the first point of this part coincides with the previous
                // part's last point: consume it so the next point follows as
                // a line, without a new move command
                self.count = 1;
                self.part = Ghost(PartTrack { done_len: self.part@.done_len, fresh: false });
            }
            return Ok(());
        }
        match self.geom_tp {
            GeomType::Point => {
                if self.count == 0 {
                    self.push_command(Command::MoveTo);
                }
            },
            GeomType::Linestring => {
                if self.count == 0 {
                    self.part = Ghost(PartTrack { done_len: self.part@.done_len, fresh: true });
                    self.push_command(Command::MoveTo);
                } else if self.count == 1 {
                    self.push_command(Command::LineTo);
                }
            },
            GeomType::Polygon => {
                if self.count == 0 {
                    self.part = Ghost(PartTrack { done_len: self.part@.done_len, fresh: true });
                    self.push_command(Command::MoveTo);
                } else if self.count == 1 {
                    self.push_command(Command::LineTo);
                }
                if self.count >= 2 {
                    if self.should_simplify_point(px, py) {
                        self.pop_point();
                    }
                }
            },
        }
        self.push_point(px, py);
        proof {
            let dl = self.part@.done_len;
            if self.geom_tp != GeomType::Point {
                assert(self.data@.take(dl) =~= old(self).data@.take(dl));
            }
        }
        Ok(())
    }

    /// Complete the current geometry (for multilinestring / multipolygon).
    ///
    /// The owing command word's count is patched to the accumulated point
    /// total, a completed polygon part gains a close-path word, and (for
    /// linestring and polygon geometry) the per-part state is reset so the
    /// next part starts clean.  The word stream is a valid block sequence
    /// afterwards.
    pub fn complete_geom(&mut self) -> (r: Result<(), Error>)
        requires
            old(self).wf(),
        ensures
            final(self).wf(),
            r is Ok,
            complete_spec(old(self)@, final(self)@),
            valid_geom(final(self)@.data),
    {
        let ghost dl = self.part@.done_len;
        let ghost fresh = self.part@.fresh;
        let ghost c = self.count as int;
        match self.geom_tp {
            GeomType::Point => {
                if self.count > 0 {
                    let count = self.count;
                    self.set_command_count(count);
                    proof {
                        lemma_cmd_word_fields(1, count);
                        let d = self.data@;
                        lemma_valid_move_line_block(d, Seq::empty());
                        assert(d + Seq::<u32>::empty() =~= d);
                    }
                }
                // geometry state is not reset: a point geometry has a single
                // part, whose move command covers every point
                return Ok(());
            },
            GeomType::Linestring => {
                if self.count > 1 {
                    let count = self.count;
                    self.set_command_count(count - 1);
                    proof {
                        lemma_cmd_word_fields(2, (count - 1) as u32);
                    }
                }
                proof {
                    let d = self.data@;
                    let done = d.take(dl);
                    let part = d.skip(dl);
                    assert(done =~= old(self).data@.take(dl));
                    if c >= 1 {
                        lemma_part_blocks_valid(part, fresh, c);
                    } else {
                        assert(part.len() == 0);
                    }
                    lemma_valid_geom_concat(done, part);
                    assert(done + part =~= d);
                }
            },
            GeomType::Polygon => {
                if self.count > 1 {
                    let count = self.count;
                    self.set_command_count(count - 1);
                    let ghost d1 = self.data@;
                    self.push_command(Command::ClosePath);
                    proof {
                        lemma_cmd_word_fields(2, (count - 1) as u32);
                        lemma_cmd_word_fields(7, 1);
                        let w7 = cmd_word(7, 1);
                        let done = d1.take(dl);
                        let part = d1.skip(dl);
                        assert(done =~= old(self).data@.take(dl));
                        lemma_part_blocks_valid(part, fresh, c);
                        lemma_valid_close_block(w7, Seq::empty());
                        assert(seq![w7] + Seq::<u32>::empty() =~= seq![w7]);
                        lemma_valid_geom_concat(part, seq![w7]);
                        lemma_valid_geom_concat(done, part + seq![w7]);
                        assert(done + (part + seq![w7]) =~= self.data@);
                        assert(self.data@ =~= d1.push(w7));
                    }
                } else {
                    proof {
                        let d = self.data@;
                        let done = d.take(dl);
                        let part = d.skip(dl);
                        if c >= 1 {
                            lemma_part_blocks_valid(part, fresh, c);
                        } else {
                            assert(part.len() == 0);
                        }
                        lemma_valid_geom_concat(done, part);
                        assert(done + part =~= d);
                    }
                }
            },
        }
        // reset linestring / polygon geometry state
        self.count = 0;
        self.pt0 = None;
        self.part = Ghost(PartTrack { done_len: self.data@.len() as int, fresh: true });
        proof {
            assert(self.data@.take(self.data@.len() as int) =~= self.data@);
        }
        Ok(())
    }

    /// Complete the current geometry (for multilinestring / multipolygon),
    /// taking ownership (for method chaining).
    pub fn complete(self) -> (r: Result<Self, Error>)
        requires
            self.wf(),
        ensures
            r matches Ok(e) && e.wf() && complete_spec(self@, e@) && valid_geom(e@.data),
    {
        let mut enc = self;
        match enc.complete_geom() {
            Ok(()) => Ok(enc),
            Err(e) => Err(e),
        }
    }

    /// Add a point in tile-space coordinates, taking ownership (for method
    /// chaining).
    pub fn point(self, x: i32, y: i32) -> (r: Result<Self, Error>)
        requires
            self.wf(),
            self@.count < MAX_COMMAND_COUNT,
        ensures
            r matches Ok(e) && e.wf() && add_spec(self@, e@, x, y),
    {
        let mut enc = self;
        match enc.add_point(x, y) {
            Ok(()) => Ok(enc),
            Err(e) => Err(e),
        }
    }

    /// Number of points accumulated in the current part.  A part can hold
    /// at most [`MAX_COMMAND_COUNT`] points, the largest count a command
    /// word can carry.
    pub fn point_count(&self) -> (r: u32)
        ensures
            r == self@.count,
    {
        self.count
    }

    /// Encode the geometry data, consuming the encoder.
    ///
    /// Completes the current part once more, then freezes the words into a
    /// [`GeomData`], whose command counts match the parameter pairs that
    /// follow them.
    pub fn encode(self) -> (r: Result<GeomData, Error>)
        requires
            self.wf(),
        ensures
            r matches Ok(g) && g@.geom_tp == self@.geom_tp && g@.data == completed_data(self@)
                && valid_geom(g@.data),
    {
        let mut enc = self;
        match enc.complete_geom() {
            Ok(()) => {
                let GeomEncoder { geom_tp, data, .. } = enc;
                Ok(GeomData::new(geom_tp, data))
            },
            Err(e) => Err(e),
        }
    }
}

/// How part completion steps the encoder state: the word stream is patched
/// as [`completed_data`] says; point geometry keeps its single running
/// part, other geometry starts the next part clean.
pub open spec fn complete_spec(pre: EncView, post: EncView) -> bool {
    &&& post.data == completed_data(pre)
    &&& post.geom_tp == pre.geom_tp
    &&& post.x_min == pre.x_min
    &&& post.x_max == pre.x_max
    &&& post.y_min == pre.y_min
    &&& post.y_max == pre.y_max
    &&& post.pt1 == pre.pt1
    &&& (pre.geom_tp == GeomType::Point ==> post.count == pre.count && post.pt0 == pre.pt0)
    &&& (pre.geom_tp != GeomType::Point ==> post.count == 0 && post.pt0 is None)
}

/// Clamp property: a tile point never leaves
/// `[x_min, x_max] x [y_min, y_max]`, and a point mapped outside those
/// bounds lands exactly on the nearest bound.
pub proof fn lemma_clamp_property(pre: EncView, x: i32, y: i32)
    requires
        pre.x_min <= pre.x_max,
        pre.y_min <= pre.y_max,
    ensures
        pre.x_min <= tile_pt(pre, x, y).0 <= pre.x_max,
        pre.y_min <= tile_pt(pre, x, y).1 <= pre.y_max,
        x > pre.x_max ==> tile_pt(pre, x, y).0 == pre.x_max,
        x < pre.x_min ==> tile_pt(pre, x, y).0 == pre.x_min,
        y > pre.y_max ==> tile_pt(pre, x, y).1 == pre.y_max,
        y < pre.y_min ==> tile_pt(pre, x, y).1 == pre.y_min,
        pre.x_min <= x <= pre.x_max && pre.y_min <= y <= pre.y_max ==> tile_pt(pre, x, y) == (
        x,
        y,
        ),
{
}

/// Collinear-middle-point property: when a point of a polygon part extends
/// a straight monotone run through the two most recently emitted points,
/// the step removes the run's middle point — its two parameter words leave
/// the stream and the new point's words are measured from the run's first
/// point.
pub proof fn lemma_polygon_simplification(pre: EncView, post: EncView, x: i32, y: i32)
    requires
        add_spec(pre, post, x, y),
        pre.geom_tp == GeomType::Polygon,
        pre.count >= 2,
        pre.pt0 is Some,
        pre.pt1 is Some,
        pre.pt1 != Some(tile_pt(pre, x, y)),
        collinear_step(pre.pt0->0, pre.pt1->0, tile_pt(pre, x, y)),
    ensures
        post.data == pre.data.take(pre.data.len() - 2) + delta_pair(pre.pt0, tile_pt(pre, x, y)),
        post.pt0 == pre.pt0,
        post.pt1 == Some(tile_pt(pre, x, y)),
        post.count == pre.count,
{
}

/// Collinear-middle-point property, across two steps: when the current tile
/// point `p1` was itself pushed onto an earlier stream `q`, and the next
/// point extends a straight monotone run through `p1`, the stepped stream is
/// the one in which `p1`'s parameter words were never pushed at all.
pub proof fn lemma_simplified_as_never_pushed(
    q: EncView,
    pre: EncView,
    post: EncView,
    p1: (i32, i32),
    x: i32,
    y: i32,
)
    requires
        pre.data == q.data + delta_pair(q.pt1, p1),
        pre.pt0 == q.pt1,
        pre.pt1 == Some(p1),
        add_spec(pre, post, x, y),
        pre.geom_tp == GeomType::Polygon,
        pre.count >= 2,
        pre.pt0 is Some,
        pre.pt1 != Some(tile_pt(pre, x, y)),
        collinear_step(pre.pt0->0, pre.pt1->0, tile_pt(pre, x, y)),
    ensures
        post.data == q.data + delta_pair(q.pt1, tile_pt(pre, x, y)),
{
    assert(pre.data.take(pre.data.len() - 2) =~= q.data);
}

/// Validated geometry data: a geometry type together with a finished word
/// sequence in which every command word's count matches the parameter words
/// that follow it.
///
/// Use [`GeomEncoder`] to encode; only its finalize step can produce one.
pub struct GeomData {
    /// Geometry type
    geom_tp: GeomType,
    /// Encoded geometry data
    data: Vec<u32>,
}

/// Abstract value of a [`GeomData`]: its geometry type and word sequence.
pub ghost struct GeomDataView {
    /// Geometry type
    pub geom_tp: GeomType,
    /// Encoded geometry data
    pub data: Seq<u32>,
}

impl View for GeomData {
    type V = GeomDataView;

    closed spec fn view(&self) -> GeomDataView {
        GeomDataView { geom_tp: self.geom_tp, data: self.data@ }
    }
}

impl GeomData {
    /// Every command word's count matches the parameter words after it, for
    /// the whole sequence: held by construction, never by validation.
    #[verifier::type_invariant]
    spec fn inv(self) -> bool {
        valid_geom(self.data@)
    }

    /// Create new geometry data.
    ///
    /// * `geom_tp` Geometry type.
    /// * `data` Validated geometry.
    pub(crate) fn new(geom_tp: GeomType, data: Vec<u32>) -> (r: Self)
        requires
            valid_geom(data@),
        ensures
            r@.geom_tp == geom_tp,
            r@.data == data@,
    {
        GeomData { geom_tp, data }
    }

    /// Get the geometry type
    pub fn geom_type(&self) -> (r: GeomType)
        ensures
            r == self@.geom_tp,
    {
        self.geom_tp
    }

    /// Check if data is empty
    pub fn is_empty(&self) -> (r: bool)
        ensures
            r == (self@.data.len() == 0),
    {
        self.data.is_empty()
    }

    /// Get length of data
    pub fn len(&self) -> (r: usize)
        ensures
            r == self@.data.len(),
    {
        self.data.len()
    }

    /// Get the geometry data
    pub fn into_vec(self) -> (r: Vec<u32>)
        ensures
            r@ == self@.data,
            valid_geom(r@),
    {
        proof {
            use_type_invariant(&self);
        }
        let GeomData { geom_tp: _, data } = self;
        data
    }
}


} // verus!
