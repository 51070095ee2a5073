//! The projector and renderer: a deterministic, read-only mapping from the
//! scene to a list of draw commands against an abstract 2D surface.
//!
//! Command geometry is in sub-units (`SUB_PER_UNIT` per scene unit), so the
//! isometric projection of the milli-unit scene coordinates is exact. The
//! surface that replays the commands divides by `SUB_PER_UNIT` to get scene
//! units; `font_px` is a raw pixel size understood by the surface.

use vstd::prelude::*;
use crate::iso_of;
use crate::project;
use crate::scene::AnimationEngine;
use crate::scene::BlockV;
use crate::scene::MemoryBlock3D;
use crate::scene::Pointer3D;
use crate::scene::PointerV;

verus! {

/// A primitive operation against the 2D drawing surface.
pub enum DrawCmd {
    /// Clear the whole surface.
    Clear,
    /// Fill a rectangle with a color.
    FillRect { x: i64, y: i64, width: i64, height: i64, color: String },
    /// Stroke a rectangle outline.
    StrokeRect { x: i64, y: i64, width: i64, height: i64, color: String, line_width: i64 },
    /// Draw a text label.
    FillText { text: String, x: i64, y: i64, color: String, font_px: i64 },
    /// Stroke a line segment.
    Line { x1: i64, y1: i64, x2: i64, y2: i64, color: String, width: i64 },
    /// Draw an arrowhead at `(x, y)` for an arrow coming from
    /// `(from_x, from_y)`: the surface strokes two segments of the given
    /// length back from the tip, at 30 degrees either side of the arrow's
    /// direction, in the given color and width.
    ArrowHead {
        x: i64,
        y: i64,
        from_x: i64,
        from_y: i64,
        length: i64,
        color: String,
        width: i64,
    },
}

/// Mathematical model of a draw command.
pub ghost enum CmdV {
    Clear,
    FillRect { x: int, y: int, width: int, height: int, color: Seq<char> },
    StrokeRect { x: int, y: int, width: int, height: int, color: Seq<char>, line_width: int },
    FillText { text: Seq<char>, x: int, y: int, color: Seq<char>, font_px: int },
    Line { x1: int, y1: int, x2: int, y2: int, color: Seq<char>, width: int },
    ArrowHead {
        x: int,
        y: int,
        from_x: int,
        from_y: int,
        length: int,
        color: Seq<char>,
        width: int,
    },
}

impl View for DrawCmd {
    type V = CmdV;

    open spec fn view(&self) -> CmdV {
        match self {
            DrawCmd::Clear => CmdV::Clear,
            DrawCmd::FillRect { x, y, width, height, color } => CmdV::FillRect {
                x: *x as int,
                y: *y as int,
                width: *width as int,
                height: *height as int,
                color: color@,
            },
            DrawCmd::StrokeRect { x, y, width, height, color, line_width } => CmdV::StrokeRect {
                x: *x as int,
                y: *y as int,
                width: *width as int,
                height: *height as int,
                color: color@,
                line_width: *line_width as int,
            },
            DrawCmd::FillText { text, x, y, color, font_px } => CmdV::FillText {
                text: text@,
                x: *x as int,
                y: *y as int,
                color: color@,
                font_px: *font_px as int,
            },
            DrawCmd::Line { x1, y1, x2, y2, color, width } => CmdV::Line {
                x1: *x1 as int,
                y1: *y1 as int,
                x2: *x2 as int,
                y2: *y2 as int,
                color: color@,
                width: *width as int,
            },
            DrawCmd::ArrowHead { x, y, from_x, from_y, length, color, width } => CmdV::ArrowHead {
                x: *x as int,
                y: *y as int,
                from_x: *from_x as int,
                from_y: *from_y as int,
                length: *length as int,
                color: color@,
                width: *width as int,
            },
        }
    }
}

/// The models of a list of draw commands.
pub open spec fn cmd_views(s: Seq<DrawCmd>) -> Seq<CmdV> {
    s.map_values(|c: DrawCmd| c@)
}

/// The commands one memory block produces: a filled rectangle at the
/// block's projected position, a 2-unit white border around it, and, when
/// the block carries a value, a white 14px label offset (+10, +25) scene
/// units from the rectangle's top-left corner.
pub open spec fn block_cmds(b: BlockV) -> Seq<CmdV> {
    let ix = iso_of(b.x, b.z);
    let iy = iso_of(b.y, b.z);
    let base = seq![
        CmdV::FillRect { x: ix, y: iy, width: 2 * b.width, height: 2 * b.height, color: b.color },
        CmdV::StrokeRect {
            x: ix,
            y: iy,
            width: 2 * b.width,
            height: 2 * b.height,
            color: "white"@,
            line_width: 4000,
        },
    ];
    match b.value {
        Option::Some(v) => base.push(
            CmdV::FillText { text: v, x: ix + 20_000, y: iy + 50_000, color: "white"@, font_px: 14 },
        ),
        Option::None => base,
    }
}

/// The commands one pointer produces: a line between its projected start
/// and end points in its color and thickness, then an arrowhead of 15
/// scene units at the end point in the same color and thickness.
pub open spec fn pointer_cmds(p: PointerV) -> Seq<CmdV> {
    let sx = iso_of(p.start_x, p.start_z);
    let sy = iso_of(p.start_y, p.start_z);
    let ex = iso_of(p.end_x, p.end_z);
    let ey = iso_of(p.end_y, p.end_z);
    seq![
        CmdV::Line { x1: sx, y1: sy, x2: ex, y2: ey, color: p.color, width: 2 * p.thickness },
        CmdV::ArrowHead {
            x: ex,
            y: ey,
            from_x: sx,
            from_y: sy,
            length: 30_000,
            color: p.color,
            width: 2 * p.thickness,
        },
    ]
}

/// The commands of a sequence of blocks, in order.
pub open spec fn blocks_cmds(s: Seq<BlockV>) -> Seq<CmdV>
    decreases s.len(),
{
    if s.len() == 0 {
        Seq::empty()
    } else {
        block_cmds(s[0]) + blocks_cmds(s.drop_first())
    }
}

/// The commands of a sequence of pointers, in order.
pub open spec fn pointers_cmds(s: Seq<PointerV>) -> Seq<CmdV>
    decreases s.len(),
{
    if s.len() == 0 {
        Seq::empty()
    } else {
        pointer_cmds(s[0]) + pointers_cmds(s.drop_first())
    }
}

/// The full rendering of a scene: clear the surface, then draw every block,
/// then every pointer, so pointers always sit on top of blocks.
pub open spec fn render_spec(blocks: Seq<BlockV>, pointers: Seq<PointerV>) -> Seq<CmdV> {
    seq![CmdV::Clear] + blocks_cmds(blocks) + pointers_cmds(pointers)
}

proof fn lemma_blocks_cmds_push(s: Seq<BlockV>, b: BlockV)
    ensures
        blocks_cmds(s.push(b)) == blocks_cmds(s) + block_cmds(b),
    decreases s.len(),
{
    if s.len() == 0 {
        assert(s.push(b)[0] == b);
        assert(s.push(b).drop_first() =~= Seq::<BlockV>::empty());
        assert(blocks_cmds(s.push(b)) == block_cmds(b) + blocks_cmds(Seq::<BlockV>::empty()));
        assert(blocks_cmds(Seq::<BlockV>::empty()) =~= Seq::<CmdV>::empty());
        assert(blocks_cmds(s.push(b)) =~= blocks_cmds(s) + block_cmds(b));
    } else {
        assert(s.push(b).drop_first() =~= s.drop_first().push(b));
        lemma_blocks_cmds_push(s.drop_first(), b);
        assert(s.push(b)[0] == s[0]);
        assert(blocks_cmds(s.push(b)) == block_cmds(s[0]) + blocks_cmds(s.drop_first().push(b)));
        assert(blocks_cmds(s) == block_cmds(s[0]) + blocks_cmds(s.drop_first()));
        assert(blocks_cmds(s.push(b)) =~= blocks_cmds(s) + block_cmds(b));
    }
}

proof fn lemma_pointers_cmds_push(s: Seq<PointerV>, p: PointerV)
    ensures
        pointers_cmds(s.push(p)) == pointers_cmds(s) + pointer_cmds(p),
    decreases s.len(),
{
    if s.len() == 0 {
        assert(s.push(p)[0] == p);
        assert(s.push(p).drop_first() =~= Seq::<PointerV>::empty());
        assert(pointers_cmds(s.push(p)) == pointer_cmds(p) + pointers_cmds(
            Seq::<PointerV>::empty(),
        ));
        assert(pointers_cmds(Seq::<PointerV>::empty()) =~= Seq::<CmdV>::empty());
        assert(pointers_cmds(s.push(p)) =~= pointers_cmds(s) + pointer_cmds(p));
    } else {
        assert(s.push(p).drop_first() =~= s.drop_first().push(p));
        lemma_pointers_cmds_push(s.drop_first(), p);
        assert(s.push(p)[0] == s[0]);
        assert(pointers_cmds(s.push(p)) == pointer_cmds(s[0]) + pointers_cmds(
            s.drop_first().push(p),
        ));
        assert(pointers_cmds(s) == pointer_cmds(s[0]) + pointers_cmds(s.drop_first()));
        assert(pointers_cmds(s.push(p)) =~= pointers_cmds(s) + pointer_cmds(p));
    }
}

/// Emits the draw commands of one memory block.
fn render_memory_block(cmds: &mut Vec<DrawCmd>, block: &MemoryBlock3D)
    ensures
        cmd_views(final(cmds)@) == cmd_views(old(cmds)@) + block_cmds(block@),
{
    let (iso_x, iso_y) = project(block.x, block.y, block.z);
    let w: i64 = 2 * (block.width as i64);
    let h: i64 = 2 * (block.height as i64);
    cmds.push(
        DrawCmd::FillRect { x: iso_x, y: iso_y, width: w, height: h, color: block.color.clone() },
    );
    cmds.push(
        DrawCmd::StrokeRect {
            x: iso_x,
            y: iso_y,
            width: w,
            height: h,
            color: "white".to_owned(),
            line_width: 4000,
        },
    );
    if let Option::Some(v) = &block.value {
        cmds.push(
            DrawCmd::FillText {
                text: v.clone(),
                x: iso_x + 20_000,
                y: iso_y + 50_000,
                color: "white".to_owned(),
                font_px: 14,
            },
        );
    }
    proof {
        assert(cmd_views(cmds@) =~= cmd_views(old(cmds)@) + block_cmds(block@));
    }
}

/// Emits the draw commands of one pointer: its line, then its arrowhead.
fn render_pointer(cmds: &mut Vec<DrawCmd>, pointer: &Pointer3D)
    ensures
        cmd_views(final(cmds)@) == cmd_views(old(cmds)@) + pointer_cmds(pointer@),
{
    let (start_iso_x, start_iso_y) = project(pointer.start_x, pointer.start_y, pointer.start_z);
    let (end_iso_x, end_iso_y) = project(pointer.end_x, pointer.end_y, pointer.end_z);
    let width: i64 = 2 * (pointer.thickness_milli as i64);
    cmds.push(
        DrawCmd::Line {
            x1: start_iso_x,
            y1: start_iso_y,
            x2: end_iso_x,
            y2: end_iso_y,
            color: pointer.color.clone(),
            width,
        },
    );
    draw_arrow_head(cmds, end_iso_x, end_iso_y, start_iso_x, start_iso_y, &pointer.color, width);
    proof {
        assert(cmd_views(cmds@) =~= cmd_views(old(cmds)@) + pointer_cmds(pointer@));
    }
}

/// Emits the arrowhead command for an arrow tip at `(x, y)` coming from
/// `(from_x, from_y)`, 15 scene units long, in the arrow's own color and
/// width.
fn draw_arrow_head(
    cmds: &mut Vec<DrawCmd>,
    x: i64,
    y: i64,
    from_x: i64,
    from_y: i64,
    color: &String,
    width: i64,
)
    ensures
        cmd_views(final(cmds)@) == cmd_views(old(cmds)@).push(
            (CmdV::ArrowHead {
                x: x as int,
                y: y as int,
                from_x: from_x as int,
                from_y: from_y as int,
                length: 30_000,
                color: color@,
                width: width as int,
            }),
        ),
{
    cmds.push(
        DrawCmd::ArrowHead { x, y, from_x, from_y, length: 30_000, color: color.clone(), width },
    );
    proof {
        assert(cmd_views(cmds@) =~= cmd_views(old(cmds)@).push(
            (CmdV::ArrowHead {
                x: x as int,
                y: y as int,
                from_x: from_x as int,
                from_y: from_y as int,
                length: 30_000,
                color: color@,
                width: width as int,
            }),
        ));
    }
}

impl AnimationEngine {
    /// Renders the scene as a list of draw commands: a clear first, then
    /// every memory block, then every pointer. Read-only: the scene is not
    /// changed, and an empty scene still clears the surface.
    pub fn render(&self) -> (cmds: Vec<DrawCmd>)
        ensures
            cmd_views(cmds@) == render_spec(self.blocks_view(), self.pointers_view()),
    {
        let mut cmds: Vec<DrawCmd> = Vec::new();
        cmds.push(DrawCmd::Clear);
        proof {
            assert(self.blocks_view().take(0) =~= Seq::<BlockV>::empty());
            assert(cmd_views(cmds@) =~= seq![CmdV::Clear] + blocks_cmds(
                self.blocks_view().take(0),
            ));
        }
        let nb: usize = self.memory_blocks.len();
        let mut i: usize = 0;
        while i < nb
            invariant
                i <= nb,
                nb == self.memory_blocks@.len(),
                cmd_views(cmds@) == seq![CmdV::Clear] + blocks_cmds(
                    self.blocks_view().take(i as int),
                ),
            decreases nb - i,
        {
            render_memory_block(&mut cmds, &self.memory_blocks[i]);
            proof {
                assert(self.blocks_view().take(i + 1) =~= self.blocks_view().take(
                    i as int,
                ).push(self.blocks_view()[i as int]));
                lemma_blocks_cmds_push(
                    self.blocks_view().take(i as int),
                    self.blocks_view()[i as int],
                );
                assert(cmd_views(cmds@) =~= seq![CmdV::Clear] + blocks_cmds(
                    self.blocks_view().take(i + 1),
                ));
            }
            i += 1;
        }
        proof {
            assert(self.blocks_view().take(nb as int) =~= self.blocks_view());
            assert(self.pointers_view().take(0) =~= Seq::<PointerV>::empty());
            assert(cmd_views(cmds@) =~= seq![CmdV::Clear] + blocks_cmds(self.blocks_view())
                + pointers_cmds(self.pointers_view().take(0)));
        }
        let np: usize = self.pointers.len();
        let mut j: usize = 0;
        while j < np
            invariant
                j <= np,
                np == self.pointers@.len(),
                cmd_views(cmds@) == seq![CmdV::Clear] + blocks_cmds(self.blocks_view())
                    + pointers_cmds(self.pointers_view().take(j as int)),
            decreases np - j,
        {
            render_pointer(&mut cmds, &self.pointers[j]);
            proof {
                assert(self.pointers_view().take(j + 1) =~= self.pointers_view().take(
                    j as int,
                ).push(self.pointers_view()[j as int]));
                lemma_pointers_cmds_push(
                    self.pointers_view().take(j as int),
                    self.pointers_view()[j as int],
                );
                assert(cmd_views(cmds@) =~= seq![CmdV::Clear] + blocks_cmds(self.blocks_view())
                    + pointers_cmds(self.pointers_view().take(j + 1)));
            }
            j += 1;
        }
        proof {
            assert(self.pointers_view().take(np as int) =~= self.pointers_view());
        }
        cmds
    }
}

/// A command that some memory block produces.
pub open spec fn is_block_cmd(c: CmdV) -> bool {
    match c {
        CmdV::FillRect { .. } => true,
        CmdV::StrokeRect { .. } => true,
        CmdV::FillText { .. } => true,
        _ => false,
    }
}

/// A command that some pointer produces.
pub open spec fn is_pointer_cmd(c: CmdV) -> bool {
    match c {
        CmdV::Line { .. } => true,
        CmdV::ArrowHead { .. } => true,
        _ => false,
    }
}

proof fn lemma_block_cmds_kind(b: BlockV)
    ensures
        forall|i: int| 0 <= i < block_cmds(b).len() ==> is_block_cmd(#[trigger] block_cmds(b)[i]),
{
    let cs = block_cmds(b);
    match b.value {
        Option::Some(_) => {
            assert(cs.len() == 3);
            assert(is_block_cmd(cs[0]));
            assert(is_block_cmd(cs[1]));
            assert(is_block_cmd(cs[2]));
        },
        Option::None => {
            assert(cs.len() == 2);
            assert(is_block_cmd(cs[0]));
            assert(is_block_cmd(cs[1]));
        },
    }
}

proof fn lemma_pointer_cmds_kind(p: PointerV)
    ensures
        forall|i: int|
            0 <= i < pointer_cmds(p).len() ==> is_pointer_cmd(#[trigger] pointer_cmds(p)[i]),
{
    let cs = pointer_cmds(p);
    assert(cs.len() == 2);
    assert(is_pointer_cmd(cs[0]));
    assert(is_pointer_cmd(cs[1]));
}

proof fn lemma_blocks_cmds_kind(s: Seq<BlockV>)
    ensures
        forall|i: int|
            0 <= i < blocks_cmds(s).len() ==> is_block_cmd(#[trigger] blocks_cmds(s)[i]),
    decreases s.len(),
{
    if s.len() != 0 {
        lemma_block_cmds_kind(s[0]);
        lemma_blocks_cmds_kind(s.drop_first());
        let head = block_cmds(s[0]);
        let tail = blocks_cmds(s.drop_first());
        assert(blocks_cmds(s) == head + tail);
        assert forall|i: int| 0 <= i < blocks_cmds(s).len() implies is_block_cmd(
            #[trigger] blocks_cmds(s)[i],
        ) by {
            if i < head.len() {
                assert(blocks_cmds(s)[i] == head[i]);
            } else {
                assert(blocks_cmds(s)[i] == tail[i - head.len()]);
            }
        }
    }
}

proof fn lemma_pointers_cmds_kind(s: Seq<PointerV>)
    ensures
        forall|i: int|
            0 <= i < pointers_cmds(s).len() ==> is_pointer_cmd(#[trigger] pointers_cmds(s)[i]),
    decreases s.len(),
{
    if s.len() != 0 {
        lemma_pointer_cmds_kind(s[0]);
        lemma_pointers_cmds_kind(s.drop_first());
        let head = pointer_cmds(s[0]);
        let tail = pointers_cmds(s.drop_first());
        assert(pointers_cmds(s) == head + tail);
        assert forall|i: int| 0 <= i < pointers_cmds(s).len() implies is_pointer_cmd(
            #[trigger] pointers_cmds(s)[i],
        ) by {
            if i < head.len() {
                assert(pointers_cmds(s)[i] == head[i]);
            } else {
                assert(pointers_cmds(s)[i] == tail[i - head.len()]);
            }
        }
    }
}

/// Render-order law: in the rendering of any scene, every block command
/// stands strictly before every pointer command, so pointers are always
/// drawn on top of blocks.
pub proof fn lemma_blocks_drawn_before_pointers(blocks: Seq<BlockV>, pointers: Seq<PointerV>)
    ensures
        forall|i: int, j: int|
            0 <= i < render_spec(blocks, pointers).len() && 0 <= j < render_spec(
                blocks,
                pointers,
            ).len() && is_block_cmd(#[trigger] render_spec(blocks, pointers)[i]) && is_pointer_cmd(
                #[trigger] render_spec(blocks, pointers)[j],
            ) ==> i < j,
{
    let r = render_spec(blocks, pointers);
    let nb = blocks_cmds(blocks).len() as int;
    lemma_blocks_cmds_kind(blocks);
    lemma_pointers_cmds_kind(pointers);
    assert forall|i: int, j: int|
        0 <= i < r.len() && 0 <= j < r.len() && is_block_cmd(r[i]) && is_pointer_cmd(
            r[j],
        ) implies i < j by {
        assert(r[0] == CmdV::Clear);
        if i >= 1 + nb {
            assert(r[i] == pointers_cmds(pointers)[i - 1 - nb]);
            assert(is_pointer_cmd(r[i]));
            assert(false);
        }
        if j < 1 + nb {
            if j == 0 {
                assert(!is_pointer_cmd(r[0]));
            } else {
                assert(r[j] == blocks_cmds(blocks)[j - 1]);
                assert(is_block_cmd(r[j]));
            }
            assert(false);
        }
    }
}

} // verus!
