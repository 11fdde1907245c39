//! The layers of boxes of a rendered tree.
use vstd::prelude::*;
use crate::text::push_repeat;
use crate::tree_render::{RenderTree, RenderTreeNode, TreeRenderVisitor, MAX_EXTRA_LINES};
use crate::wrap::{adjust_text_for_rendering, NODE_RENDER_WIDTH, TEXT_WIDTH};
use crate::{text, tree_render, wrap};

verus! {

impl RenderTree {
    /// There is one place per column and row.
    pub open spec fn wf(&self) -> bool {
        self.nodes@.len() == self.width * self.height && self.width < usize::MAX
    }

    /// The box at a place, if there is one.
    pub open spec fn node_at(&self, x: int, y: int) -> Option<RenderTreeNode> {
        if 0 <= x < self.width && 0 <= y < self.height {
            self.nodes@[y * self.width + x]
        } else {
            None
        }
    }

    /// Whether there is a box at a place.
    pub open spec fn has(&self, x: int, y: int) -> bool {
        self.node_at(x, y) is Some
    }

    /// Whether there is a box at a place or to its right.
    pub open spec fn adjacent(&self, x: int, y: int) -> bool {
        exists|k: int| x <= k < self.width && #[trigger] self.has(k, y)
    }

    /// The box at a place, if there is one.
    pub fn get_node(&self, x: usize, y: usize) -> (r: Option<&RenderTreeNode>)
        requires
            self.wf(),
        ensures
            match r {
                Some(node) => self.node_at(x as int, y as int) == Some(*node),
                None => self.node_at(x as int, y as int) is None,
            },
    {
        let places: usize = self.nodes.len();
        if x < self.width && y < self.height {
            assert(y * self.width + x < self.width * self.height) by (nonlinear_arith)
                requires
                    x < self.width,
                    y < self.height,
            ;
            assert(y * self.width <= self.width * self.height) by (nonlinear_arith)
                requires
                    y < self.height,
            ;
            let place: usize = y * self.width + x;
            assert(place < places);
            match &self.nodes[place] {
                Some(node) => Some(node),
                None => None,
            }
        } else {
            None
        }
    }

    /// Whether there is a box at a place.
    pub fn has_node(&self, x: usize, y: usize) -> (r: bool)
        requires
            self.wf(),
        ensures
            r == self.has(x as int, y as int),
    {
        self.get_node(x, y).is_some()
    }

    fn has_adjacent(&self, x: usize, y: usize) -> (r: bool)
        requires
            self.wf(),
            x <= self.width,
        ensures
            r == self.adjacent(x as int, y as int),
    {
        let mut k: usize = x;
        while k < self.width
            invariant
                self.wf(),
                x <= k <= self.width,
                forall|j: int| x <= j < k ==> !#[trigger] self.has(j, y as int),
            decreases self.width - k,
        {
            if self.has_node(k, y) {
                assert(self.has(k as int, y as int));
                return true;
            }
            k += 1;
        }
        false
    }
}

/// Whether a line leads to a child of a box further left: going left from `x`,
/// the first box has more children than were passed on the way.
pub open spec fn leads_right(root: &RenderTree, x: int, y: int, passed: int) -> bool
    decreases x + 1,
{
    if x < 0 {
        false
    } else {
        let found = passed + if root.has(x, y + 1) {
            1int
        } else {
            0int
        };
        match root.node_at(x, y) {
            Some(node) => node.child_positions@.len() > 1 && found < node.child_positions@.len(),
            None => leads_right(root, x - 1, y, found),
        }
    }
}

/// Whether a line leads to a child of a box further left.
pub fn should_render_whitespace(root: &RenderTree, x: usize, y: usize) -> (r: bool)
    requires
        root.wf(),
        y < root.height,
        x <= root.width,
    ensures
        r == leads_right(root, x as int, y as int, 0),
{
    let mut found_children: usize = 0;
    let mut n: usize = x + 1;
    while n > 0
        invariant
            root.wf(),
            y < root.height,
            n <= x + 1,
            x <= root.width,
            found_children <= x + 1 - n,
            leads_right(root, x as int, y as int, 0) == leads_right(
                root,
                n - 1,
                y as int,
                found_children as int,
            ),
        decreases n,
    {
        let i: usize = n - 1;
        if root.has_node(i, y + 1) {
            found_children += 1;
        }
        match root.get_node(i, y) {
            Some(node) => {
                return node.child_positions.len() > 1 && found_children
                    < node.child_positions.len();
            },
            None => {},
        }
        n = i;
    }
    false
}

/// The number of columns that fit, of `available`: all of them when the width is
/// not limited, and otherwise those that start before the limit.
pub open spec fn columns_shown(available: int, maximum_render_width: int) -> int {
    let fitting = (maximum_render_width + NODE_RENDER_WIDTH - 1) / NODE_RENDER_WIDTH as int;
    if maximum_render_width == 0 || available < fitting {
        available
    } else {
        fitting
    }
}

/// A column is shown exactly when it starts before the limit.
pub proof fn columns_shown_exact(available: int, maximum_render_width: int, x: int)
    requires
        0 <= x < available,
        maximum_render_width >= 0,
    ensures
        x < columns_shown(available, maximum_render_width) <==> (maximum_render_width == 0 || x
            * NODE_RENDER_WIDTH < maximum_render_width),
{
}

fn shown(available: usize, maximum_render_width: usize) -> (r: usize)
    ensures
        r == columns_shown(available as int, maximum_render_width as int),
        r <= available,
{
    let fitting: usize = maximum_render_width / NODE_RENDER_WIDTH + if maximum_render_width
        % NODE_RENDER_WIDTH != 0 {
        1
    } else {
        0
    };
    if maximum_render_width == 0 || available < fitting {
        available
    } else {
        fitting
    }
}

/// The top of a box, or the space in its place.
pub open spec fn top_cell(root: &RenderTree, x: int, y: int) -> Seq<char> {
    if root.has(x, y) {
        "┌"@ + text::repeat("─"@, 13) + (if y == 0 {
            "─"@
        } else {
            "┴"@
        }) + text::repeat("─"@, 13) + "┐"@
    } else if root.adjacent(x, y) {
        text::repeat(" "@, 29)
    } else {
        seq![]
    }
}

/// The layer of the tops of the boxes.
pub open spec fn top_layer(root: &RenderTree, y: int, columns: int) -> Seq<char> {
    text::concat(Seq::new(columns as nat, |x: int| top_cell(root, x, y))) + "\n"@
}

/// The lines of details of the box at a place.
pub open spec fn extra_at(root: &RenderTree, x: int, y: int) -> Seq<Seq<char>> {
    match root.node_at(x, y) {
        Some(node) => tree_render::extra_lines(
            seq![],
            tree_render::details_of(node.extra_text@),
            MAX_EXTRA_LINES as int,
        ),
        None => seq![],
    }
}

/// The most lines of details of the first `n` places of a row.
pub open spec fn extra_height(root: &RenderTree, y: int, n: int) -> int
    decreases n,
{
    if n <= 0 {
        0
    } else {
        let before = extra_height(root, y, n - 1);
        let here = extra_at(root, n - 1, y).len() as int;
        if here > before {
            here
        } else {
            before
        }
    }
}

/// The line of a row of boxes on which children are connected.
pub open spec fn halfway(root: &RenderTree, y: int) -> int {
    (extra_height(root, y, root.width as int) + 1) / 2
}

/// What a box shows on a line: its name, then its details.
pub open spec fn line_text(node: RenderTreeNode, extra: Seq<Seq<char>>, line: int) -> Seq<char> {
    if line == 0 {
        node.name@
    } else if line <= extra.len() {
        extra[line - 1]
    } else {
        seq![]
    }
}

/// One line of a box, or of the space in its place.
pub open spec fn content_cell(root: &RenderTree, x: int, y: int, line: int) -> Seq<char> {
    let half = halfway(root, y);
    let below = root.has(x, y + 1);
    let right = leads_right(root, x, y, 0);
    let adjacent = root.adjacent(x, y);
    match root.node_at(x, y) {
        Some(node) => "│"@ + wrap::fitted(
            line_text(node, extra_at(root, x, y), line),
            TEXT_WIDTH as int,
        ) + if line == half && node.child_positions@.len() > 1 {
            "├"@
        } else {
            "│"@
        },
        None => if line == half {
            if below {
                if right {
                    text::repeat("─"@, 14) + "┬"@ + text::repeat("─"@, 14)
                } else if adjacent {
                    text::repeat("─"@, 14) + "┐"@ + text::repeat(" "@, 14)
                } else {
                    text::repeat("─"@, 14) + "┐"@
                }
            } else if right {
                text::repeat("─"@, 29)
            } else if adjacent {
                text::repeat(" "@, 29)
            } else {
                seq![]
            }
        } else if line >= half {
            if below {
                if adjacent || right {
                    text::repeat(" "@, 14) + "│"@ + text::repeat(" "@, 14)
                } else {
                    text::repeat(" "@, 14) + "│"@
                }
            } else if adjacent || right {
                text::repeat(" "@, 29)
            } else {
                seq![]
            }
        } else if adjacent {
            text::repeat(" "@, 29)
        } else {
            seq![]
        },
    }
}

/// One line of a row of boxes.
pub open spec fn content_line(root: &RenderTree, y: int, line: int, columns: int) -> Seq<char> {
    text::concat(Seq::new(columns as nat, |x: int| content_cell(root, x, y, line))) + "\n"@
}

/// The contents of a row of boxes.
pub open spec fn content_layer(root: &RenderTree, y: int, columns: int) -> Seq<char> {
    text::concat(
        Seq::new(
            (extra_height(root, y, root.width as int) + 1) as nat,
            |line: int| content_line(root, y, line, columns),
        ),
    )
}

/// The bottom of a box, or the space in its place.
pub open spec fn bottom_cell(root: &RenderTree, x: int, y: int) -> Seq<char> {
    let below = root.has(x, y + 1);
    let filled = root.adjacent(x, y) || leads_right(root, x, y, 0);
    if root.has(x, y) {
        "└"@ + text::repeat("─"@, 13) + (if below {
            "┬"@
        } else {
            "─"@
        }) + text::repeat("─"@, 13) + "┘"@
    } else if below {
        if filled {
            text::repeat(" "@, 14) + "│"@ + text::repeat(" "@, 14)
        } else {
            text::repeat(" "@, 14) + "│"@
        }
    } else if filled {
        text::repeat(" "@, 29)
    } else {
        seq![]
    }
}

/// The layer of the bottoms of the boxes.
pub open spec fn bottom_layer(root: &RenderTree, y: int, columns: int) -> Seq<char> {
    text::concat(Seq::new(columns as nat, |x: int| bottom_cell(root, x, y))) + "\n"@
}

/// One row of the rendered tree.
pub open spec fn row_text(root: &RenderTree, y: int, maximum_render_width: int) -> Seq<char> {
    let columns = columns_shown(root.width as int, maximum_render_width);
    top_layer(root, y, columns) + content_layer(root, y, columns) + bottom_layer(
        root,
        y,
        columns_shown(root.width + 1, maximum_render_width),
    )
}

/// The rendered tree.
pub open spec fn tree_text(root: &RenderTree, maximum_render_width: int) -> Seq<char> {
    text::concat(
        Seq::new(root.height as nat, |y: int| row_text(root, y, maximum_render_width)),
    )
}

/// Whether a box of the given name and details can be rendered: its details can
/// be broken to the width of the box, and its lines fit into it.
pub open spec fn box_renderable(name: Seq<char>, details: Seq<(Seq<char>, Seq<char>)>) -> bool {
    let extra = tree_render::extra_lines(seq![], details, MAX_EXTRA_LINES as int);
    &&& tree_render::details_wrappable(details, MAX_EXTRA_LINES as int)
    &&& wrap::fits(name, TEXT_WIDTH as int)
    &&& forall|i: int| 0 <= i < extra.len() ==> wrap::fits(#[trigger] extra[i], TEXT_WIDTH as int)
}

/// Whether a box can be rendered.
pub open spec fn node_renderable(node: RenderTreeNode) -> bool {
    box_renderable(node.name@, tree_render::details_of(node.extra_text@))
}

/// Whether every box can be rendered.
pub open spec fn renderable(root: &RenderTree) -> bool {
    forall|x: int, y: int|
        (#[trigger] root.node_at(x, y)) is Some ==> node_renderable(root.node_at(x, y)->0)
}

proof fn concat_next(parts: Seq<Seq<char>>, n: int)
    requires
        0 <= n < parts.len(),
    ensures
        text::concat(parts.take(n + 1)) == text::concat(parts.take(n)) + parts[n],
{
    assert(parts.take(n + 1).drop_last() == parts.take(n));
}

impl TreeRenderVisitor {
    fn push_top_cell(out: &mut String, root: &RenderTree, x: usize, y: usize)
        requires
            root.wf(),
            x <= root.width,
        ensures
            final(out)@ == old(out)@ + top_cell(root, x as int, y as int),
    {
        if root.has_node(x, y) {
            out.append("┌");
            push_repeat(out, "─", 13);
            if y == 0 {
                out.append("─");
            } else {
                out.append("┴");
            }
            push_repeat(out, "─", 13);
            out.append("┐");
        } else if root.has_adjacent(x, y) {
            push_repeat(out, " ", 29);
        }
        assert(out@ == old(out)@ + top_cell(root, x as int, y as int));
    }

    /// Appends the layer of the tops of the boxes.
    pub fn render_top_layer(&self, out: &mut String, root: &RenderTree, y: usize)
        requires
            root.wf(),
        ensures
            final(out)@ == old(out)@ + top_layer(
                root,
                y as int,
                columns_shown(root.width as int, self.maximum_render_width as int),
            ),
    {
        let columns: usize = shown(root.width, self.maximum_render_width);
        let ghost cells = Seq::new(columns as nat, |x: int| top_cell(root, x, y as int));
        let mut x: usize = 0;
        assert(cells.take(0) == Seq::<Seq<char>>::empty());
        assert(text::concat(cells.take(0)) == Seq::<char>::empty());
        while x < columns
            invariant
                root.wf(),
                x <= columns <= root.width,
                cells == Seq::new(columns as nat, |x: int| top_cell(root, x, y as int)),
                out@ == old(out)@ + text::concat(cells.take(x as int)),
            decreases columns - x,
        {
            Self::push_top_cell(out, root, x, y);
            proof {
                concat_next(cells, x as int);
            }
            x += 1;
            assert(out@ == old(out)@ + text::concat(cells.take(x as int)));
        }
        assert(cells.take(x as int) == cells);
        out.append("\n");
    }

    fn push_content_cell(
        out: &mut String,
        root: &RenderTree,
        extra: &Vec<Vec<String>>,
        x: usize,
        y: usize,
        line: usize,
        half: usize,
    )
        requires
            root.wf(),
            renderable(root),
            y < root.height,
            x < root.width,
            extra@.len() == root.width,
            text::views(extra@[x as int]@) == extra_at(root, x as int, y as int),
            half == halfway(root, y as int),
        ensures
            final(out)@ == old(out)@ + content_cell(root, x as int, y as int, line as int),
    {
        let adjacent: bool = root.has_adjacent(x, y);
        match root.get_node(x, y) {
            Some(node) => {
                let lines = &extra[x];
                assert(text::views(lines@).len() == lines@.len());
                proof {
                    assert(root.node_at(x as int, y as int) is Some);
                    assert(node_renderable(*node));
                }
                out.append("│");
                let ghost shown_line = line_text(
                    *node,
                    extra_at(root, x as int, y as int),
                    line as int,
                );
                let fitted: String = if line == 0 {
                    adjust_text_for_rendering(node.name.as_str(), TEXT_WIDTH)
                } else if line <= lines.len() {
                    assert(extra_at(root, x as int, y as int)[line - 1] == lines@[line - 1]@);
                    adjust_text_for_rendering(lines[line - 1].as_str(), TEXT_WIDTH)
                } else {
                    let blank: String = String::new();
                    adjust_text_for_rendering(blank.as_str(), TEXT_WIDTH)
                };
                assert(fitted@ == wrap::fitted(shown_line, TEXT_WIDTH as int));
                out.append(fitted.as_str());
                if line == half && node.child_positions.len() > 1 {
                    out.append("├");
                } else {
                    out.append("│");
                }
            },
            None => {
                let below: bool = root.has_node(x, y + 1);
                let right: bool = should_render_whitespace(root, x, y);
                if line == half {
                    if below {
                        push_repeat(out, "─", 14);
                        if right {
                            out.append("┬");
                            push_repeat(out, "─", 14);
                        } else {
                            out.append("┐");
                            if adjacent {
                                push_repeat(out, " ", 14);
                            }
                        }
                    } else if right {
                        push_repeat(out, "─", 29);
                    } else if adjacent {
                        push_repeat(out, " ", 29);
                    }
                } else if line >= half {
                    if below {
                        push_repeat(out, " ", 14);
                        out.append("│");
                        if adjacent || right {
                            push_repeat(out, " ", 14);
                        }
                    } else if adjacent || right {
                        push_repeat(out, " ", 29);
                    }
                } else if adjacent {
                    push_repeat(out, " ", 29);
                }
            },
        }
        assert(out@ == old(out)@ + content_cell(root, x as int, y as int, line as int));
    }

    fn push_content_line(
        out: &mut String,
        root: &RenderTree,
        extra: &Vec<Vec<String>>,
        y: usize,
        line: usize,
        half: usize,
        columns: usize,
    )
        requires
            root.wf(),
            renderable(root),
            y < root.height,
            columns <= root.width,
            extra@.len() == root.width,
            forall|x: int|
                0 <= x < root.width ==> text::views((#[trigger] extra@[x])@) == extra_at(
                    root,
                    x,
                    y as int,
                ),
            half == halfway(root, y as int),
        ensures
            final(out)@ == old(out)@ + content_line(root, y as int, line as int, columns as int),
    {
        let ghost cells = Seq::new(
            columns as nat,
            |x: int| content_cell(root, x, y as int, line as int),
        );
        let mut x: usize = 0;
        assert(cells.take(0) == Seq::<Seq<char>>::empty());
        assert(text::concat(cells.take(0)) == Seq::<char>::empty());
        while x < columns
            invariant
                root.wf(),
                renderable(root),
                y < root.height,
                x <= columns <= root.width,
                extra@.len() == root.width,
                forall|x: int|
                    0 <= x < root.width ==> text::views((#[trigger] extra@[x])@) == extra_at(
                        root,
                        x,
                        y as int,
                    ),
                half == halfway(root, y as int),
                cells == Seq::new(
                    columns as nat,
                    |x: int| content_cell(root, x, y as int, line as int),
                ),
                out@ == old(out)@ + text::concat(cells.take(x as int)),
            decreases columns - x,
        {
            Self::push_content_cell(out, root, extra, x, y, line, half);
            proof {
                concat_next(cells, x as int);
            }
            x += 1;
            assert(out@ == old(out)@ + text::concat(cells.take(x as int)));
        }
        assert(cells.take(x as int) == cells);
        out.append("\n");
    }

    /// Appends the contents of a row of boxes.
    pub fn render_box_content(&self, out: &mut String, root: &RenderTree, y: usize)
        requires
            root.wf(),
            renderable(root),
            y < root.height,
        ensures
            final(out)@ == old(out)@ + content_layer(
                root,
                y as int,
                columns_shown(root.width as int, self.maximum_render_width as int),
            ),
    {
        let mut extra: Vec<Vec<String>> = Vec::new();
        let mut height: usize = 0;
        let mut x: usize = 0;
        while x < root.width
            invariant
                root.wf(),
                renderable(root),
                x <= root.width,
                extra@.len() == x,
                forall|k: int|
                    0 <= k < x ==> text::views((#[trigger] extra@[k])@) == extra_at(
                        root,
                        k,
                        y as int,
                    ),
                height == extra_height(root, y as int, x as int),
            decreases root.width - x,
        {
            let mut lines: Vec<String> = Vec::new();
            assert(text::views(lines@) == Seq::<Seq<char>>::empty());
            match root.get_node(x, y) {
                Some(node) => {
                    assert(root.node_at(x as int, y as int) is Some);
                    assert(node_renderable(*node));
                    Self::split_up_extra_info(&node.extra_text, &mut lines, MAX_EXTRA_LINES);
                },
                None => {},
            }
            assert(text::views(lines@) == extra_at(root, x as int, y as int));
            assert(text::views(lines@).len() == lines@.len());
            if lines.len() > height {
                height = lines.len();
            }
            extra.push(lines);
            x += 1;
        }
        let half: usize = height / 2 + height % 2;
        let columns: usize = shown(root.width, self.maximum_render_width);
        let ghost lines = Seq::new(
            (height + 1) as nat,
            |line: int| content_line(root, y as int, line, columns as int),
        );
        assert(lines.take(0) == Seq::<Seq<char>>::empty());
        assert(text::concat(lines.take(0)) == Seq::<char>::empty());
        let mut line: usize = 0;
        while line < height
            invariant
                root.wf(),
                renderable(root),
                y < root.height,
                columns <= root.width,
                extra@.len() == root.width,
                forall|x: int|
                    0 <= x < root.width ==> text::views((#[trigger] extra@[x])@) == extra_at(
                        root,
                        x,
                        y as int,
                    ),
                half == halfway(root, y as int),
                line <= height,
                lines == Seq::new(
                    (height + 1) as nat,
                    |line: int| content_line(root, y as int, line, columns as int),
                ),
                out@ == old(out)@ + text::concat(lines.take(line as int)),
            decreases height - line,
        {
            Self::push_content_line(out, root, &extra, y, line, half, columns);
            proof {
                concat_next(lines, line as int);
            }
            line += 1;
            assert(out@ == old(out)@ + text::concat(lines.take(line as int)));
        }
        Self::push_content_line(out, root, &extra, y, height, half, columns);
        proof {
            concat_next(lines, height as int);
            assert(lines.take(height + 1) == lines);
        }
        assert(out@ == old(out)@ + content_layer(root, y as int, columns as int));
    }

    fn push_bottom_cell(out: &mut String, root: &RenderTree, x: usize, y: usize)
        requires
            root.wf(),
            y < root.height,
            x <= root.width,
        ensures
            final(out)@ == old(out)@ + bottom_cell(root, x as int, y as int),
    {
        let filled: bool = root.has_adjacent(x, y) || should_render_whitespace(root, x, y);
        let below: bool = root.has_node(x, y + 1);
        if root.has_node(x, y) {
            out.append("└");
            push_repeat(out, "─", 13);
            if below {
                out.append("┬");
            } else {
                out.append("─");
            }
            push_repeat(out, "─", 13);
            out.append("┘");
        } else if below {
            push_repeat(out, " ", 14);
            out.append("│");
            if filled {
                push_repeat(out, " ", 14);
            }
        } else if filled {
            push_repeat(out, " ", 29);
        }
        assert(out@ == old(out)@ + bottom_cell(root, x as int, y as int));
    }

    /// Appends the layer of the bottoms of the boxes.
    pub fn render_bottom_layer(&self, out: &mut String, root: &RenderTree, y: usize)
        requires
            root.wf(),
            y < root.height,
        ensures
            final(out)@ == old(out)@ + bottom_layer(
                root,
                y as int,
                columns_shown(root.width + 1, self.maximum_render_width as int),
            ),
    {
        let columns: usize = shown(root.width + 1, self.maximum_render_width);
        let ghost cells = Seq::new(columns as nat, |x: int| bottom_cell(root, x, y as int));
        let mut x: usize = 0;
        assert(cells.take(0) == Seq::<Seq<char>>::empty());
        assert(text::concat(cells.take(0)) == Seq::<char>::empty());
        while x < columns
            invariant
                root.wf(),
                y < root.height,
                x <= columns <= root.width + 1,
                cells == Seq::new(columns as nat, |x: int| bottom_cell(root, x, y as int)),
                out@ == old(out)@ + text::concat(cells.take(x as int)),
            decreases columns - x,
        {
            Self::push_bottom_cell(out, root, x, y);
            proof {
                concat_next(cells, x as int);
            }
            x += 1;
            assert(out@ == old(out)@ + text::concat(cells.take(x as int)));
        }
        assert(cells.take(x as int) == cells);
        out.append("\n");
    }

    /// The rendered tree.
    pub fn visit(&self, root: &RenderTree) -> (r: String)
        requires
            root.wf(),
            renderable(root),
        ensures
            r@ == tree_text(root, self.maximum_render_width as int),
    {
        let mut out: String = String::new();
        let ghost rows = Seq::new(
            root.height as nat,
            |y: int| row_text(root, y, self.maximum_render_width as int),
        );
        assert(rows.take(0) == Seq::<Seq<char>>::empty());
        assert(text::concat(rows.take(0)) == Seq::<char>::empty());
        let mut y: usize = 0;
        while y < root.height
            invariant
                root.wf(),
                renderable(root),
                y <= root.height,
                rows == Seq::new(
                    root.height as nat,
                    |y: int| row_text(root, y, self.maximum_render_width as int),
                ),
                out@ == text::concat(rows.take(y as int)),
            decreases root.height - y,
        {
            self.render_top_layer(&mut out, root, y);
            self.render_box_content(&mut out, root, y);
            self.render_bottom_layer(&mut out, root, y);
            proof {
                concat_next(rows, y as int);
            }
            y += 1;
            assert(out@ == text::concat(rows.take(y as int)));
        }
        assert(rows.take(y as int) == rows);
        out
    }
}

} // verus!
