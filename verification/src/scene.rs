//! The scene store: pointers and memory blocks keyed by id, the global
//! animation parameters, and the per-frame animation step.
//!
//! All geometry is fixed-point: coordinates, extents and thicknesses are in
//! milli-units (`MILLI_PER_UNIT` per scene unit), the animation speed is in
//! milli-cycles per second, and a pointer's cycle position is in
//! micro-cycles (`trig::CYCLE_MICRO` per cycle).

use vstd::prelude::*;
use vstd::arithmetic::mul::lemma_mul_upper_bound;
use crate::trig::sin_milli;
use crate::trig::thickness_of;
use crate::trig::lemma_thickness_bounds;

verus! {

/// A directed arrow between two points of the scene, with a cosmetic pulse
/// when `animated` is set.
pub struct Pointer3D {
    pub id: String,
    pub start_x: i32,
    pub start_y: i32,
    pub start_z: i32,
    pub end_x: i32,
    pub end_y: i32,
    pub end_z: i32,
    /// Any CSS-style color specification.
    pub color: String,
    /// Line width in milli-units; re-derived from the cycle position by the
    /// stepper when `animated` is set, caller-controlled otherwise.
    pub thickness_milli: i32,
    pub animated: bool,
    /// Position in the pulse cycle, in micro-cycles.
    pub animation_progress_micro: u32,
}

/// The kind of memory a block stands for. Informational only: the engine
/// stores it but does not branch on it.
#[derive(Clone, Copy, Debug, PartialEq, Eq, Structural)]
pub enum MemoryType {
    Stack,
    Heap,
    Global,
}

/// A rectangular memory region positioned in the scene. `depth` affects
/// only the projected position, not the drawn rectangle.
pub struct MemoryBlock3D {
    pub id: String,
    pub x: i32,
    pub y: i32,
    pub z: i32,
    pub width: i32,
    pub height: i32,
    pub depth: i32,
    pub color: String,
    /// Optional label drawn inside the block.
    pub value: Option<String>,
    pub memory_type: MemoryType,
}

/// Mathematical model of a pointer: strings as character sequences,
/// numbers as unbounded integers.
pub ghost struct PointerV {
    pub id: Seq<char>,
    pub start_x: int,
    pub start_y: int,
    pub start_z: int,
    pub end_x: int,
    pub end_y: int,
    pub end_z: int,
    pub color: Seq<char>,
    pub thickness: int,
    pub animated: bool,
    pub progress: int,
}

/// Mathematical model of a memory block.
pub ghost struct BlockV {
    pub id: Seq<char>,
    pub x: int,
    pub y: int,
    pub z: int,
    pub width: int,
    pub height: int,
    pub depth: int,
    pub color: Seq<char>,
    pub value: Option<Seq<char>>,
    pub memory_type: MemoryType,
}

impl View for Pointer3D {
    type V = PointerV;

    open spec fn view(&self) -> PointerV {
        PointerV {
            id: self.id@,
            start_x: self.start_x as int,
            start_y: self.start_y as int,
            start_z: self.start_z as int,
            end_x: self.end_x as int,
            end_y: self.end_y as int,
            end_z: self.end_z as int,
            color: self.color@,
            thickness: self.thickness_milli as int,
            animated: self.animated,
            progress: self.animation_progress_micro as int,
        }
    }
}

impl View for MemoryBlock3D {
    type V = BlockV;

    open spec fn view(&self) -> BlockV {
        BlockV {
            id: self.id@,
            x: self.x as int,
            y: self.y as int,
            z: self.z as int,
            width: self.width as int,
            height: self.height as int,
            depth: self.depth as int,
            color: self.color@,
            value: match self.value {
                Option::Some(v) => Option::Some(v@),
                Option::None => Option::None,
            },
            memory_type: self.memory_type,
        }
    }
}

/// The models of a sequence of stored pointers.
pub open spec fn ptr_views(s: Seq<Pointer3D>) -> Seq<PointerV> {
    s.map_values(|p: Pointer3D| p@)
}

/// The models of a sequence of stored blocks.
pub open spec fn block_views(s: Seq<MemoryBlock3D>) -> Seq<BlockV> {
    s.map_values(|b: MemoryBlock3D| b@)
}

/// Some pointer in `s` carries the id.
pub open spec fn ptr_has_id(s: Seq<PointerV>, id: Seq<char>) -> bool {
    exists|i: int| 0 <= i < s.len() && s[i].id == id
}

/// The index of the pointer carrying the id (unique when ids are unique).
pub open spec fn ptr_index_of(s: Seq<PointerV>, id: Seq<char>) -> int {
    choose|i: int| 0 <= i < s.len() && s[i].id == id
}

/// No two pointers share an id.
pub open spec fn ptr_ids_unique(s: Seq<PointerV>) -> bool {
    forall|i: int, j: int|
        0 <= i < s.len() && 0 <= j < s.len() && i != j ==> s[i].id != s[j].id
}

/// Some block in `s` carries the id.
pub open spec fn block_has_id(s: Seq<BlockV>, id: Seq<char>) -> bool {
    exists|i: int| 0 <= i < s.len() && s[i].id == id
}

/// The index of the block carrying the id (unique when ids are unique).
pub open spec fn block_index_of(s: Seq<BlockV>, id: Seq<char>) -> int {
    choose|i: int| 0 <= i < s.len() && s[i].id == id
}

/// No two blocks share an id.
pub open spec fn block_ids_unique(s: Seq<BlockV>) -> bool {
    forall|i: int, j: int|
        0 <= i < s.len() && 0 <= j < s.len() && i != j ==> s[i].id != s[j].id
}

/// Insert-or-overwrite by id: a pointer whose id is present replaces the
/// one carrying it, any other is appended.
pub open spec fn upsert_pointer_spec(s: Seq<PointerV>, p: PointerV) -> Seq<PointerV> {
    if ptr_has_id(s, p.id) {
        s.update(ptr_index_of(s, p.id), p)
    } else {
        s.push(p)
    }
}

/// Removal by id: a no-op when the id is absent.
pub open spec fn remove_pointer_spec(s: Seq<PointerV>, id: Seq<char>) -> Seq<PointerV> {
    if ptr_has_id(s, id) {
        s.remove(ptr_index_of(s, id))
    } else {
        s
    }
}

/// Insert-or-overwrite by id for blocks.
pub open spec fn upsert_block_spec(s: Seq<BlockV>, b: BlockV) -> Seq<BlockV> {
    if block_has_id(s, b.id) {
        s.update(block_index_of(s, b.id), b)
    } else {
        s.push(b)
    }
}

/// Removal by id for blocks: a no-op when the id is absent.
pub open spec fn remove_block_spec(s: Seq<BlockV>, id: Seq<char>) -> Seq<BlockV> {
    if block_has_id(s, id) {
        s.remove(block_index_of(s, id))
    } else {
        s
    }
}

/// The pointer with its end point replaced and every other field kept.
pub open spec fn with_end(p: PointerV, x: int, y: int, z: int) -> PointerV {
    PointerV { end_x: x, end_y: y, end_z: z, ..p }
}

/// Position update by id: only the end point of the pointer carrying the
/// id changes; an absent id changes nothing.
pub open spec fn update_position_spec(
    s: Seq<PointerV>,
    id: Seq<char>,
    x: int,
    y: int,
    z: int,
) -> Seq<PointerV> {
    if ptr_has_id(s, id) {
        s.update(ptr_index_of(s, id), with_end(s[ptr_index_of(s, id)], x, y, z))
    } else {
        s
    }
}

/// A cycle position that would leave the cycle wraps to its start; a
/// position of exactly one full cycle is retained.
pub open spec fn wrap_progress(x: int) -> int {
    if x > 1_000_000 {
        0
    } else {
        x
    }
}

/// One animation step of a single pointer: an animated pointer advances by
/// `delta` micro-cycles, wraps, and gets its thickness re-derived; any
/// other pointer is untouched.
pub open spec fn step_pointer(p: PointerV, delta: int) -> PointerV {
    if p.animated {
        let np = wrap_progress(p.progress + delta);
        PointerV { progress: np, thickness: thickness_of(np), ..p }
    } else {
        p
    }
}

/// One animation step of every pointer.
pub open spec fn step_pointers(s: Seq<PointerV>, delta: int) -> Seq<PointerV> {
    s.map_values(|p: PointerV| step_pointer(p, delta))
}

/// Elapsed milliseconds between two clock readings, zero when the clock
/// went backwards.
pub open spec fn elapsed_of(last: int, now: int) -> int {
    if now >= last {
        now - last
    } else {
        0
    }
}

/// The animation speed an input clamps to: milli-cycles per second in
/// `[100, 5000]` (0.1 to 5 cycles per second).
pub open spec fn clamp_speed(s: int) -> int {
    if s < 100 {
        100
    } else if s > 5000 {
        5000
    } else {
        s
    }
}

/// The scene engine: all pointers and memory blocks, keyed by id, and the
/// global animation parameters.
pub struct AnimationEngine {
    pub pointers: Vec<Pointer3D>,
    pub memory_blocks: Vec<MemoryBlock3D>,
    /// Animation speed in milli-cycles per second, always in `[100, 5000]`.
    pub animation_speed_milli: u32,
    /// The clock reading of the latest step, in milliseconds.
    pub last_frame_time_ms: u64,
}

impl AnimationEngine {
    /// The models of the stored pointers, in storage order.
    pub open spec fn pointers_view(&self) -> Seq<PointerV> {
        ptr_views(self.pointers@)
    }

    /// The models of the stored blocks, in storage order.
    pub open spec fn blocks_view(&self) -> Seq<BlockV> {
        block_views(self.memory_blocks@)
    }

    /// The stored animation speed, in milli-cycles per second.
    pub open spec fn speed_milli(&self) -> int {
        self.animation_speed_milli as int
    }

    /// The stored clock reading, in milliseconds.
    pub open spec fn last_frame_ms(&self) -> int {
        self.last_frame_time_ms as int
    }

    /// Well-formedness: ids are unique within each store and the speed is
    /// clamped. Established by `new` and preserved by every operation.
    pub open spec fn wf(&self) -> bool {
        &&& ptr_ids_unique(self.pointers_view())
        &&& block_ids_unique(self.blocks_view())
        &&& 100 <= self.speed_milli() <= 5000
    }

    /// A fresh engine: empty stores, a speed of one cycle per second, and
    /// the caller's clock reading as the first frame time.
    pub fn new(now_ms: u64) -> (engine: AnimationEngine)
        ensures
            engine.wf(),
            engine.pointers_view() == Seq::<PointerV>::empty(),
            engine.blocks_view() == Seq::<BlockV>::empty(),
            engine.speed_milli() == 1000,
            engine.last_frame_ms() == now_ms as int,
    {
        let engine = AnimationEngine {
            pointers: Vec::new(),
            memory_blocks: Vec::new(),
            animation_speed_milli: 1000,
            last_frame_time_ms: now_ms,
        };
        proof {
            assert(engine.pointers_view() =~= Seq::<PointerV>::empty());
            assert(engine.blocks_view() =~= Seq::<BlockV>::empty());
        }
        engine
    }

    /// Inserts the pointer, overwriting any pointer that already carries
    /// its id; the count grows only when the id is new.
    pub fn add_pointer(&mut self, pointer: Pointer3D)
        requires
            old(self).wf(),
        ensures
            final(self).wf(),
            final(self).pointers_view() == upsert_pointer_spec(
                old(self).pointers_view(),
                pointer@,
            ),
            final(self).pointers_view().len() == (if ptr_has_id(
                old(self).pointers_view(),
                pointer@.id,
            ) {
                old(self).pointers_view().len()
            } else {
                old(self).pointers_view().len() + 1
            }),
            final(self).blocks_view() == old(self).blocks_view(),
            final(self).speed_milli() == old(self).speed_milli(),
            final(self).last_frame_ms() == old(self).last_frame_ms(),
    {
        let ghost olds = self.pointers_view();
        proof {
            lemma_ptr_upsert_properties(olds, pointer@);
        }
        let found = find_pointer_index(&self.pointers, &pointer.id);
        match found {
            Option::Some(i) => {
                proof {
                    lemma_ptr_unique_index(olds, i as int);
                }
                self.pointers.set(i, pointer);
                proof {
                    assert(self.pointers_view() =~= olds.update(i as int, pointer@));
                }
            },
            Option::None => {
                self.pointers.push(pointer);
                proof {
                    assert(self.pointers_view() =~= olds.push(pointer@));
                }
            },
        }
    }

    /// Inserts the block, overwriting any block that already carries its
    /// id; the count grows only when the id is new.
    pub fn add_memory_block(&mut self, block: MemoryBlock3D)
        requires
            old(self).wf(),
        ensures
            final(self).wf(),
            final(self).blocks_view() == upsert_block_spec(old(self).blocks_view(), block@),
            final(self).blocks_view().len() == (if block_has_id(
                old(self).blocks_view(),
                block@.id,
            ) {
                old(self).blocks_view().len()
            } else {
                old(self).blocks_view().len() + 1
            }),
            final(self).pointers_view() == old(self).pointers_view(),
            final(self).speed_milli() == old(self).speed_milli(),
            final(self).last_frame_ms() == old(self).last_frame_ms(),
    {
        let ghost olds = self.blocks_view();
        proof {
            lemma_block_upsert_properties(olds, block@);
        }
        let found = find_block_index(&self.memory_blocks, &block.id);
        match found {
            Option::Some(i) => {
                proof {
                    lemma_block_unique_index(olds, i as int);
                }
                self.memory_blocks.set(i, block);
                proof {
                    assert(self.blocks_view() =~= olds.update(i as int, block@));
                }
            },
            Option::None => {
                self.memory_blocks.push(block);
                proof {
                    assert(self.blocks_view() =~= olds.push(block@));
                }
            },
        }
    }

    /// Removes the pointer carrying the id; a no-op when the id is absent,
    /// never an error.
    pub fn remove_pointer(&mut self, id: &str)
        requires
            old(self).wf(),
        ensures
            final(self).wf(),
            final(self).pointers_view() == remove_pointer_spec(old(self).pointers_view(), id@),
            !ptr_has_id(final(self).pointers_view(), id@),
            final(self).pointers_view().len() == (if ptr_has_id(old(self).pointers_view(), id@) {
                old(self).pointers_view().len() as int - 1
            } else {
                old(self).pointers_view().len() as int
            }),
            final(self).blocks_view() == old(self).blocks_view(),
            final(self).speed_milli() == old(self).speed_milli(),
            final(self).last_frame_ms() == old(self).last_frame_ms(),
    {
        let ghost olds = self.pointers_view();
        proof {
            lemma_ptr_remove_properties(olds, id@);
        }
        let key: String = id.to_owned();
        let found = find_pointer_index(&self.pointers, &key);
        match found {
            Option::Some(i) => {
                proof {
                    lemma_ptr_unique_index(olds, i as int);
                }
                self.pointers.remove(i);
                proof {
                    assert(self.pointers_view() =~= olds.remove(i as int));
                }
            },
            Option::None => {},
        }
    }

    /// Removes the block carrying the id; a no-op when the id is absent,
    /// never an error.
    pub fn remove_memory_block(&mut self, id: &str)
        requires
            old(self).wf(),
        ensures
            final(self).wf(),
            final(self).blocks_view() == remove_block_spec(old(self).blocks_view(), id@),
            !block_has_id(final(self).blocks_view(), id@),
            final(self).blocks_view().len() == (if block_has_id(old(self).blocks_view(), id@) {
                old(self).blocks_view().len() as int - 1
            } else {
                old(self).blocks_view().len() as int
            }),
            final(self).pointers_view() == old(self).pointers_view(),
            final(self).speed_milli() == old(self).speed_milli(),
            final(self).last_frame_ms() == old(self).last_frame_ms(),
    {
        let ghost olds = self.blocks_view();
        proof {
            lemma_block_remove_properties(olds, id@);
        }
        let key: String = id.to_owned();
        let found = find_block_index(&self.memory_blocks, &key);
        match found {
            Option::Some(i) => {
                proof {
                    lemma_block_unique_index(olds, i as int);
                }
                self.memory_blocks.remove(i);
                proof {
                    assert(self.blocks_view() =~= olds.remove(i as int));
                }
            },
            Option::None => {},
        }
    }

    /// Moves the end point of the pointer carrying the id, leaving its
    /// start, color and animation state untouched; a no-op when the id is
    /// absent.
    pub fn update_pointer_position(&mut self, id: &str, end_x: i32, end_y: i32, end_z: i32)
        requires
            old(self).wf(),
        ensures
            final(self).wf(),
            final(self).pointers_view() == update_position_spec(
                old(self).pointers_view(),
                id@,
                end_x as int,
                end_y as int,
                end_z as int,
            ),
            final(self).blocks_view() == old(self).blocks_view(),
            final(self).speed_milli() == old(self).speed_milli(),
            final(self).last_frame_ms() == old(self).last_frame_ms(),
    {
        let ghost olds = self.pointers_view();
        let key: String = id.to_owned();
        let found = find_pointer_index(&self.pointers, &key);
        match found {
            Option::Some(i) => {
                proof {
                    lemma_ptr_unique_index(olds, i as int);
                }
                let mut p = self.pointers.remove(i);
                p.end_x = end_x;
                p.end_y = end_y;
                p.end_z = end_z;
                self.pointers.insert(i, p);
                proof {
                    let news = olds.update(
                        i as int,
                        with_end(olds[i as int], end_x as int, end_y as int, end_z as int),
                    );
                    assert(self.pointers_view() =~= news);
                    assert forall|a: int| 0 <= a < news.len() implies news[a].id == olds[a].id by {}
                    assert(ptr_ids_unique(news));
                }
            },
            Option::None => {},
        }
    }

    /// The number of stored pointers.
    pub fn get_pointer_count(&self) -> (n: usize)
        ensures
            n == self.pointers_view().len(),
    {
        self.pointers.len()
    }

    /// The number of stored blocks.
    pub fn get_memory_block_count(&self) -> (n: usize)
        ensures
            n == self.blocks_view().len(),
    {
        self.memory_blocks.len()
    }

    /// Stores the speed, clamped into `[100, 5000]` milli-cycles per
    /// second; an input outside the range is clamped, never rejected.
    pub fn set_animation_speed(&mut self, speed_milli: i64)
        requires
            old(self).wf(),
        ensures
            final(self).wf(),
            final(self).speed_milli() == clamp_speed(speed_milli as int),
            final(self).pointers_view() == old(self).pointers_view(),
            final(self).blocks_view() == old(self).blocks_view(),
            final(self).last_frame_ms() == old(self).last_frame_ms(),
    {
        let clamped: i64 = if speed_milli < 100 {
            100
        } else if speed_milli > 5000 {
            5000
        } else {
            speed_milli
        };
        self.animation_speed_milli = clamped as u32;
    }

    /// Empties both stores. The animation parameters — speed and last
    /// frame time — are kept: reset clears content, not configuration.
    pub fn reset(&mut self)
        requires
            old(self).wf(),
        ensures
            final(self).wf(),
            final(self).pointers_view() == Seq::<PointerV>::empty(),
            final(self).blocks_view() == Seq::<BlockV>::empty(),
            final(self).pointers_view().len() == 0,
            final(self).blocks_view().len() == 0,
            final(self).speed_milli() == old(self).speed_milli(),
            final(self).last_frame_ms() == old(self).last_frame_ms(),
    {
        self.pointers = Vec::new();
        self.memory_blocks = Vec::new();
        proof {
            assert(self.pointers_view() =~= Seq::<PointerV>::empty());
            assert(self.blocks_view() =~= Seq::<BlockV>::empty());
        }
    }

    /// One animation step at the given clock reading: every animated
    /// pointer advances by the elapsed time times the speed, wraps at the
    /// end of its cycle, and gets its thickness re-derived; non-animated
    /// pointers and all blocks are untouched. Total: never fails.
    pub fn animate(&mut self, now_ms: u64)
        requires
            old(self).wf(),
        ensures
            final(self).wf(),
            final(self).last_frame_ms() == now_ms as int,
            final(self).speed_milli() == old(self).speed_milli(),
            final(self).blocks_view() == old(self).blocks_view(),
            final(self).pointers_view() == step_pointers(
                old(self).pointers_view(),
                elapsed_of(old(self).last_frame_ms(), now_ms as int) * old(self).speed_milli(),
            ),
            forall|j: int|
                0 <= j < final(self).pointers_view().len()
                    && final(self).pointers_view()[j].animated ==> {
                    &&& 0 <= final(self).pointers_view()[j].progress <= 1_000_000
                    &&& 1000 <= final(self).pointers_view()[j].thickness <= 5000
                },
    {
        let elapsed_ms: u64 = if now_ms >= self.last_frame_time_ms {
            now_ms - self.last_frame_time_ms
        } else {
            0
        };
        self.last_frame_time_ms = now_ms;
        let speed: u32 = self.animation_speed_milli;
        let ghost olds = self.pointers_view();
        let ghost oldblocks = self.blocks_view();
        let ghost delta: int = (elapsed_ms as int) * (speed as int);
        proof {
            lemma_mul_upper_bound(elapsed_ms as int, u64::MAX as int, speed as int, 5000);
            assert(0 <= delta) by (nonlinear_arith)
                requires
                    0 <= elapsed_ms as int,
                    0 <= speed as int,
                    delta == (elapsed_ms as int) * (speed as int),
            ;
        }
        let n: usize = self.pointers.len();
        let mut i: usize = 0;
        while i < n
            invariant
                i <= n,
                self.pointers@.len() == n,
                olds.len() == n,
                speed == self.animation_speed_milli,
                100 <= speed <= 5000,
                elapsed_ms <= u64::MAX,
                delta == (elapsed_ms as int) * (speed as int),
                0 <= delta <= (u64::MAX as int) * 5000,
                self.last_frame_time_ms == now_ms,
                self.blocks_view() == oldblocks,
                block_ids_unique(self.blocks_view()),
                forall|j: int| 0 <= j < i ==> self.pointers_view()[j] == step_pointer(olds[j], delta),
                forall|j: int| i <= j < n ==> self.pointers_view()[j] == olds[j],
            decreases n - i,
        {
            if self.pointers[i].animated {
                let ghost prev = self.pointers@;
                let mut p = self.pointers.remove(i);
                let ghost pv = p@;
                assert(pv == olds[i as int]);
                let sum: u128 = (p.animation_progress_micro as u128) + (elapsed_ms as u128) * (
                speed as u128);
                assert(sum == pv.progress + delta);
                let newp: u32 = if sum > 1_000_000 {
                    0
                } else {
                    sum as u32
                };
                assert(newp == wrap_progress(pv.progress + delta));
                p.animation_progress_micro = newp;
                let s: i32 = sin_milli(newp);
                p.thickness_milli = 3000 + 2 * s;
                proof {
                    lemma_thickness_bounds(newp as int);
                    assert(p@ == step_pointer(olds[i as int], delta));
                }
                self.pointers.insert(i, p);
                proof {
                    prev.remove_ensures(i as int);
                    prev.remove(i as int).insert_ensures(i as int, p);
                    assert(self.pointers@ =~= prev.update(i as int, p));
                    assert(self.pointers_view() =~= ptr_views(prev).update(i as int, p@));
                }
            }
            i += 1;
        }
        proof {
            assert(self.pointers_view() =~= step_pointers(olds, delta));
            assert forall|a: int| 0 <= a < n implies step_pointers(olds, delta)[a].id
                == olds[a].id by {}
            assert(ptr_ids_unique(step_pointers(olds, delta)));
            assert forall|j: int|
                0 <= j < self.pointers_view().len() && self.pointers_view()[j].animated implies {
                &&& 0 <= self.pointers_view()[j].progress <= 1_000_000
                &&& 1000 <= self.pointers_view()[j].thickness <= 5000
            } by {
                let q = step_pointer(olds[j], delta);
                if olds[j].animated {
                    lemma_thickness_bounds(wrap_progress(olds[j].progress + delta));
                }
            }
        }
    }
}

/// The index of the pointer carrying the id, if any.
fn find_pointer_index(pointers: &Vec<Pointer3D>, id: &String) -> (r: Option<usize>)
    ensures
        match r {
            Option::Some(i) => 0 <= i < pointers@.len() && ptr_views(pointers@)[i as int].id
                == id@,
            Option::None => !ptr_has_id(ptr_views(pointers@), id@),
        },
{
    let n = pointers.len();
    let mut i: usize = 0;
    while i < n
        invariant
            i <= n,
            n == pointers@.len(),
            forall|j: int| 0 <= j < i ==> ptr_views(pointers@)[j].id != id@,
        decreases n - i,
    {
        if pointers[i].id == *id {
            return Option::Some(i);
        }
        i += 1;
    }
    Option::None
}

/// The index of the block carrying the id, if any.
fn find_block_index(blocks: &Vec<MemoryBlock3D>, id: &String) -> (r: Option<usize>)
    ensures
        match r {
            Option::Some(i) => 0 <= i < blocks@.len() && block_views(blocks@)[i as int].id == id@,
            Option::None => !block_has_id(block_views(blocks@), id@),
        },
{
    let n = blocks.len();
    let mut i: usize = 0;
    while i < n
        invariant
            i <= n,
            n == blocks@.len(),
            forall|j: int| 0 <= j < i ==> block_views(blocks@)[j].id != id@,
        decreases n - i,
    {
        if blocks[i].id == *id {
            return Option::Some(i);
        }
        i += 1;
    }
    Option::None
}

/// With unique ids, any index whose pointer carries an id is the index the
/// model functions pick for that id.
pub proof fn lemma_ptr_unique_index(s: Seq<PointerV>, i: int)
    requires
        ptr_ids_unique(s),
        0 <= i < s.len(),
    ensures
        ptr_has_id(s, s[i].id),
        ptr_index_of(s, s[i].id) == i,
{
    let id = s[i].id;
    assert(ptr_has_id(s, id));
    let k = ptr_index_of(s, id);
    assert(0 <= k < s.len() && s[k].id == id);
    if k != i {
        assert(s[k].id != s[i].id);
        assert(false);
    }
}

/// With unique ids, any index whose block carries an id is the index the
/// model functions pick for that id.
pub proof fn lemma_block_unique_index(s: Seq<BlockV>, i: int)
    requires
        block_ids_unique(s),
        0 <= i < s.len(),
    ensures
        block_has_id(s, s[i].id),
        block_index_of(s, s[i].id) == i,
{
    let id = s[i].id;
    assert(block_has_id(s, id));
    let k = block_index_of(s, id);
    assert(0 <= k < s.len() && s[k].id == id);
    if k != i {
        assert(s[k].id != s[i].id);
        assert(false);
    }
}

/// Upsert keeps ids unique, puts the given pointer under its id — any
/// pointer carrying that id afterwards is the given one — and grows the
/// count only when the id is new.
pub proof fn lemma_ptr_upsert_properties(s: Seq<PointerV>, p: PointerV)
    requires
        ptr_ids_unique(s),
    ensures
        ptr_ids_unique(upsert_pointer_spec(s, p)),
        ptr_has_id(upsert_pointer_spec(s, p), p.id),
        forall|i: int|
            0 <= i < upsert_pointer_spec(s, p).len() && upsert_pointer_spec(s, p)[i].id == p.id
                ==> upsert_pointer_spec(s, p)[i] == p,
        upsert_pointer_spec(s, p).len() == (if ptr_has_id(s, p.id) {
            s.len() as int
        } else {
            s.len() as int + 1
        }),
{
    let t = upsert_pointer_spec(s, p);
    if ptr_has_id(s, p.id) {
        let k = ptr_index_of(s, p.id);
        assert(0 <= k < s.len() && s[k].id == p.id);
        assert(forall|i: int| 0 <= i < t.len() ==> t[i].id == s[i].id);
        assert(ptr_has_id(t, p.id)) by {
            assert(t[k].id == p.id);
        }
        assert forall|i: int| 0 <= i < t.len() && t[i].id == p.id implies t[i] == p by {
            if i != k {
                assert(s[i].id == s[k].id);
                assert(false);
            }
        }
    } else {
        assert forall|j: int| 0 <= j < s.len() implies s[j].id != p.id by {
            if s[j].id == p.id {
                assert(ptr_has_id(s, p.id));
            }
        }
        assert(t[s.len() as int] == p);
        assert(ptr_has_id(t, p.id));
        assert(ptr_ids_unique(t));
    }
}

/// Upsert for blocks: the same properties as for pointers.
pub proof fn lemma_block_upsert_properties(s: Seq<BlockV>, b: BlockV)
    requires
        block_ids_unique(s),
    ensures
        block_ids_unique(upsert_block_spec(s, b)),
        block_has_id(upsert_block_spec(s, b), b.id),
        forall|i: int|
            0 <= i < upsert_block_spec(s, b).len() && upsert_block_spec(s, b)[i].id == b.id
                ==> upsert_block_spec(s, b)[i] == b,
        upsert_block_spec(s, b).len() == (if block_has_id(s, b.id) {
            s.len() as int
        } else {
            s.len() as int + 1
        }),
{
    let t = upsert_block_spec(s, b);
    if block_has_id(s, b.id) {
        let k = block_index_of(s, b.id);
        assert(0 <= k < s.len() && s[k].id == b.id);
        assert(forall|i: int| 0 <= i < t.len() ==> t[i].id == s[i].id);
        assert(block_has_id(t, b.id)) by {
            assert(t[k].id == b.id);
        }
        assert forall|i: int| 0 <= i < t.len() && t[i].id == b.id implies t[i] == b by {
            if i != k {
                assert(s[i].id == s[k].id);
                assert(false);
            }
        }
    } else {
        assert forall|j: int| 0 <= j < s.len() implies s[j].id != b.id by {
            if s[j].id == b.id {
                assert(block_has_id(s, b.id));
            }
        }
        assert(t[s.len() as int] == b);
        assert(block_has_id(t, b.id));
        assert(block_ids_unique(t));
    }
}

/// Removal keeps ids unique, leaves the removed id absent, and is a no-op
/// on an absent id.
pub proof fn lemma_ptr_remove_properties(s: Seq<PointerV>, id: Seq<char>)
    requires
        ptr_ids_unique(s),
    ensures
        ptr_ids_unique(remove_pointer_spec(s, id)),
        !ptr_has_id(remove_pointer_spec(s, id), id),
        remove_pointer_spec(s, id).len() == (if ptr_has_id(s, id) {
            s.len() as int - 1
        } else {
            s.len() as int
        }),
        !ptr_has_id(s, id) ==> remove_pointer_spec(s, id) == s,
{
    if ptr_has_id(s, id) {
        let k = ptr_index_of(s, id);
        assert(0 <= k < s.len() && s[k].id == id);
        let t = s.remove(k);
        s.remove_ensures(k);
        assert forall|i: int| 0 <= i < t.len() implies t[i].id != id by {
            if i < k {
                assert(t[i] == s[i]);
                if s[i].id == id {
                    assert(s[i].id == s[k].id);
                    assert(false);
                }
            } else {
                assert(t[i] == s[i + 1]);
                if s[i + 1].id == id {
                    assert(s[i + 1].id == s[k].id);
                    assert(false);
                }
            }
        }
        assert forall|i: int, j: int|
            0 <= i < t.len() && 0 <= j < t.len() && i != j implies t[i].id != t[j].id by {
            let a = if i < k { i } else { i + 1 };
            let b = if j < k { j } else { j + 1 };
            assert(t[i] == s[a]);
            assert(t[j] == s[b]);
        }
    }
}

/// Removal for blocks: the same properties as for pointers.
pub proof fn lemma_block_remove_properties(s: Seq<BlockV>, id: Seq<char>)
    requires
        block_ids_unique(s),
    ensures
        block_ids_unique(remove_block_spec(s, id)),
        !block_has_id(remove_block_spec(s, id), id),
        remove_block_spec(s, id).len() == (if block_has_id(s, id) {
            s.len() as int - 1
        } else {
            s.len() as int
        }),
        !block_has_id(s, id) ==> remove_block_spec(s, id) == s,
{
    if block_has_id(s, id) {
        let k = block_index_of(s, id);
        assert(0 <= k < s.len() && s[k].id == id);
        let t = s.remove(k);
        s.remove_ensures(k);
        assert forall|i: int| 0 <= i < t.len() implies t[i].id != id by {
            if i < k {
                assert(t[i] == s[i]);
                if s[i].id == id {
                    assert(s[i].id == s[k].id);
                    assert(false);
                }
            } else {
                assert(t[i] == s[i + 1]);
                if s[i + 1].id == id {
                    assert(s[i + 1].id == s[k].id);
                    assert(false);
                }
            }
        }
        assert forall|i: int, j: int|
            0 <= i < t.len() && 0 <= j < t.len() && i != j implies t[i].id != t[j].id by {
            let a = if i < k { i } else { i + 1 };
            let b = if j < k { j } else { j + 1 };
            assert(t[i] == s[a]);
            assert(t[j] == s[b]);
        }
    }
}

/// Upsert law: adding a pointer and then another with the same id leaves
/// exactly one pointer under that id, carrying the second one's fields,
/// and the second add does not change the count.
pub proof fn lemma_pointer_upsert(s: Seq<PointerV>, p: PointerV, q: PointerV)
    requires
        ptr_ids_unique(s),
        q.id == p.id,
    ensures
        upsert_pointer_spec(upsert_pointer_spec(s, p), q).len() == upsert_pointer_spec(
            s,
            p,
        ).len(),
        ptr_has_id(upsert_pointer_spec(upsert_pointer_spec(s, p), q), q.id),
        forall|i: int|
            0 <= i < upsert_pointer_spec(upsert_pointer_spec(s, p), q).len() && (#[trigger] upsert_pointer_spec(
                upsert_pointer_spec(s, p),
                q,
            )[i]).id == q.id ==> upsert_pointer_spec(upsert_pointer_spec(s, p), q)[i] == q,
{
    lemma_ptr_upsert_properties(s, p);
    lemma_ptr_upsert_properties(upsert_pointer_spec(s, p), q);
}

/// Idempotent removal: removing an id twice gives the same scene as
/// removing it once, and removing a never-present id changes nothing.
pub proof fn lemma_pointer_removal_idempotent(s: Seq<PointerV>, id: Seq<char>)
    requires
        ptr_ids_unique(s),
    ensures
        remove_pointer_spec(remove_pointer_spec(s, id), id) == remove_pointer_spec(s, id),
        !ptr_has_id(s, id) ==> remove_pointer_spec(s, id) == s,
{
    lemma_ptr_remove_properties(s, id);
    lemma_ptr_remove_properties(remove_pointer_spec(s, id), id);
}

/// Position update isolation: moving a pointer's end point changes none of
/// its other fields.
pub proof fn lemma_update_isolation(p: PointerV, x: int, y: int, z: int)
    ensures
        with_end(p, x, y, z).end_x == x,
        with_end(p, x, y, z).end_y == y,
        with_end(p, x, y, z).end_z == z,
        with_end(p, x, y, z).id == p.id,
        with_end(p, x, y, z).start_x == p.start_x,
        with_end(p, x, y, z).start_y == p.start_y,
        with_end(p, x, y, z).start_z == p.start_z,
        with_end(p, x, y, z).color == p.color,
        with_end(p, x, y, z).thickness == p.thickness,
        with_end(p, x, y, z).animated == p.animated,
        with_end(p, x, y, z).progress == p.progress,
{
}

/// Animation wrap law: a step never leaves the cycle position above one
/// full cycle; the step that would push it strictly past a full cycle
/// resets it to zero, and any other step advances it exactly.
pub proof fn lemma_animation_wrap(p: PointerV, delta: int)
    requires
        p.animated,
        0 <= p.progress,
        0 <= delta,
    ensures
        step_pointer(p, delta).progress <= 1_000_000,
        p.progress + delta > 1_000_000 ==> step_pointer(p, delta).progress == 0,
        p.progress + delta <= 1_000_000 ==> step_pointer(p, delta).progress == p.progress + delta,
        step_pointer(p, delta).thickness == thickness_of(step_pointer(p, delta).progress),
{
}

/// Speed clamp law: the stored speed is the input clamped into
/// `[100, 5000]` milli-cycles per second, exactly.
pub proof fn lemma_speed_clamp(s: int)
    ensures
        100 <= clamp_speed(s) <= 5000,
        s < 100 ==> clamp_speed(s) == 100,
        s > 5000 ==> clamp_speed(s) == 5000,
        100 <= s <= 5000 ==> clamp_speed(s) == s,
{
}

} // verus!
