//! In-game commands as text.

use vstd::prelude::*;
use vstd::string::StrSliceExecFns;
use vstd::string::StringExecFns;
use crate::convert::{decimal, decimal_string, quotient};
use crate::util::point::{BlockPoint, FlatPoint, Point3D};

verus! {

/// A block by its name.
pub type Block = str;

/// A command as the game reads it.
pub type Command = String;

/// What follows the block in a command, if anything.
pub type CmdParams = Option<String>;

/// The height of the lowest layer that walls are built from.
pub const WORLD_MIN: i32 = 0;

/// The height of the highest layer that walls are built to.
pub const WORLD_TOP: i32 = 255;

/// The three coordinates of a block, with a space between two.
pub open spec fn coordinates_text(p: Point3D) -> Seq<char> {
    decimal(p.x as int) + " "@ + decimal(p.y as int) + " "@ + decimal(p.z as int)
}

/// The text of the parameters: nothing where there are none.
pub open spec fn params_text(params: Option<String>) -> Seq<char> {
    match params {
        Some(text) => text@,
        None => Seq::<char>::empty(),
    }
}

/// The command that sets block `p`.
pub open spec fn setblock_text(p: Point3D, block: Seq<char>, params: Option<String>) -> Seq<char> {
    "setblock "@ + coordinates_text(p) + " "@ + block + params_text(params)
}

/// The command that fills the box between two blocks.
pub open spec fn fill_text(p1: Point3D, p2: Point3D, block: Seq<char>, params: Option<String>)
    -> Seq<char> {
    "fill "@ + coordinates_text(p1) + " "@ + coordinates_text(p2) + " "@ + block + params_text(
        params,
    )
}

/// What stands for a character inside a quoted command: quotes get two
/// backslashes before them, and a backslash is doubled.
pub open spec fn escaped_char(c: char) -> Seq<char> {
    if c == '"' {
        "\\\\\""@
    } else if c == '\'' {
        "\\\\'"@
    } else if c == '\\' {
        "\\\\"@
    } else {
        seq![c]
    }
}

/// A command as it stands inside a quoted command: each of its characters
/// escaped.
pub open spec fn escaped(s: Seq<char>) -> Seq<char>
    decreases s.len(),
{
    if s.len() == 0 {
        Seq::<char>::empty()
    } else {
        escaped(s.drop_last()) + escaped_char(s.last())
    }
}

/// The minecart that carries one command of a chain.
pub open spec fn passenger_text(cmd: Seq<char>) -> Seq<char> {
    "{id:command_block_minecart,Command:'"@ + escaped(cmd) + "'},"@
}

/// The minecarts of the first `k` commands, one after the other.
pub open spec fn passengers_text(cmds: Seq<String>, k: int) -> Seq<char>
    decreases k,
{
    if k <= 0 {
        Seq::<char>::empty()
    } else {
        passengers_text(cmds, k - 1) + passenger_text(cmds[k - 1]@)
    }
}

/// The command that runs `cmds` in order: a falling block that carries one
/// minecart for each, and a last one that removes them all.
pub open spec fn chain_text(cmds: Seq<String>) -> Seq<char> {
    "summon falling_block ~ ~1 ~ {Time:1,BlockState:{Name:activator_rail},Passengers:["@
        + passengers_text(cmds, cmds.len() as int)
        + "{{id:command_block_minecart,Command:'kill @e[type=minecraft:command_block_minecart,distance=..1]'}}"@
        + "]}"@
}

/// Half a side length, rounded toward zero.
pub open spec fn half(sidelength: i32) -> int {
    quotient(sidelength as int, 2)
}

/// Whether the corners of the square of side `sidelength` around `(x, z)`
/// have coordinates of 32 bits.
pub open spec fn square_fits(x: i32, z: i32, sidelength: i32) -> bool {
    &&& i32::MIN <= x - half(sidelength) <= i32::MAX
    &&& i32::MIN <= x + half(sidelength) <= i32::MAX
    &&& i32::MIN <= z - half(sidelength) <= i32::MAX
    &&& i32::MIN <= z + half(sidelength) <= i32::MAX
}

/// Corner `i` of the square of half side `l` around `(x, z)`, at height
/// `y`.
pub open spec fn corner(x: int, y: int, z: int, l: int, i: int) -> Point3D {
    Point3D {
        x: (if i < 2 {
            x - l
        } else {
            x + l
        }) as i32,
        y: y as i32,
        z: (if i % 2 == 0 {
            z - l
        } else {
            z + l
        }) as i32,
    }
}

fn append_coordinates(text: &mut String, p: &BlockPoint)
    ensures
        final(text)@ == old(text)@ + coordinates_text(*p),
{
    text.append(decimal_string(p.x).as_str());
    text.append(" ");
    text.append(decimal_string(p.y).as_str());
    text.append(" ");
    text.append(decimal_string(p.z).as_str());
}

fn append_params(text: &mut String, params: CmdParams)
    ensures
        final(text)@ == old(text)@ + params_text(params),
{
    match params {
        Some(more) => {
            text.append(more.as_str());
        },
        None => {},
    }
}

/// The command that sets block `p` to `block`.
pub fn setblock(p: &BlockPoint, block: &Block, params: CmdParams) -> (r: Command)
    ensures
        r@ == setblock_text(*p, block@, params),
{
    let mut text = String::from_str("setblock ");
    append_coordinates(&mut text, p);
    text.append(" ");
    text.append(block);
    append_params(&mut text, params);
    text
}

/// The command that fills the box between `p1` and `p2` with `block`.
pub fn fill(p1: &BlockPoint, p2: &BlockPoint, block: &Block, params: CmdParams) -> (r: Command)
    ensures
        r@ == fill_text(*p1, *p2, block@, params),
{
    let mut text = String::from_str("fill ");
    append_coordinates(&mut text, p1);
    text.append(" ");
    append_coordinates(&mut text, p2);
    text.append(" ");
    text.append(block);
    append_params(&mut text, params);
    text
}

/// The four commands that fill from each corner of the square around `c` to
/// the next, one block high. The corners come by increasing `x`, and for
/// each `x` by increasing `z`; the last is joined to the first.
pub fn walls_2d(c: &BlockPoint, sidelength: i32, block: &Block) -> (cmds: Vec<Command>)
    requires
        square_fits(c.x, c.z, sidelength),
    ensures
        cmds@.len() == 4,
        forall|i: int|
            0 <= i < 4 ==> (#[trigger] cmds@[i])@ == fill_text(
                corner(c.x as int, c.y as int, c.z as int, half(sidelength), i),
                corner(c.x as int, c.y as int, c.z as int, half(sidelength), (i + 1) % 4),
                block@,
                None,
            ),
{
    let l = sidelength / 2;
    let verts = [
        Point3D { x: c.x - l, y: c.y, z: c.z - l },
        Point3D { x: c.x - l, y: c.y, z: c.z + l },
        Point3D { x: c.x + l, y: c.y, z: c.z - l },
        Point3D { x: c.x + l, y: c.y, z: c.z + l },
    ];
    let mut cmds: Vec<Command> = Vec::new();
    let mut i: usize = 0;
    while i < 4
        invariant
            i <= 4,
            l == half(sidelength),
            square_fits(c.x, c.z, sidelength),
            cmds@.len() == i,
            forall|k: int|
                0 <= k < 4 ==> #[trigger] verts@[k] == corner(
                    c.x as int,
                    c.y as int,
                    c.z as int,
                    l as int,
                    k,
                ),
            forall|k: int|
                0 <= k < i ==> (#[trigger] cmds@[k])@ == fill_text(
                    corner(c.x as int, c.y as int, c.z as int, l as int, k),
                    corner(c.x as int, c.y as int, c.z as int, l as int, (k + 1) % 4),
                    block@,
                    None,
                ),
        decreases 4 - i,
    {
        cmds.push(fill(&verts[i], &verts[(i + 1) % 4], block, None));
        i += 1;
    }
    cmds
}

/// The four commands that fill from each corner of the square around `c` to
/// the next, from the bottom of the world at the one corner to its top at
/// the other.
pub fn walls_3d(c: &FlatPoint, sidelength: i32, block: &Block) -> (cmds: Vec<Command>)
    requires
        square_fits(c.x, c.z, sidelength),
    ensures
        cmds@.len() == 4,
        forall|i: int|
            0 <= i < 4 ==> (#[trigger] cmds@[i])@ == fill_text(
                corner(c.x as int, WORLD_MIN as int, c.z as int, half(sidelength), i),
                corner(c.x as int, WORLD_TOP as int, c.z as int, half(sidelength), (i + 1) % 4),
                block@,
                None,
            ),
{
    let l = sidelength / 2;
    let verts = [
        FlatPoint { x: c.x - l, z: c.z - l },
        FlatPoint { x: c.x - l, z: c.z + l },
        FlatPoint { x: c.x + l, z: c.z - l },
        FlatPoint { x: c.x + l, z: c.z + l },
    ];
    let mut cmds: Vec<Command> = Vec::new();
    let mut i: usize = 0;
    while i < 4
        invariant
            i <= 4,
            l == half(sidelength),
            square_fits(c.x, c.z, sidelength),
            cmds@.len() == i,
            forall|k: int, y: int|
                0 <= k < 4 && i32::MIN <= y <= i32::MAX ==> #[trigger] corner(
                    c.x as int,
                    y,
                    c.z as int,
                    l as int,
                    k,
                ) == (Point3D { x: verts@[k].x, y: y as i32, z: verts@[k].z }),
            forall|k: int|
                0 <= k < i ==> (#[trigger] cmds@[k])@ == fill_text(
                    corner(c.x as int, WORLD_MIN as int, c.z as int, l as int, k),
                    corner(c.x as int, WORLD_TOP as int, c.z as int, l as int, (k + 1) % 4),
                    block@,
                    None,
                ),
        decreases 4 - i,
    {
        let from = verts[i].to_3d(WORLD_MIN);
        let to = verts[(i + 1) % 4].to_3d(WORLD_TOP);
        proof {
            assert(from == corner(c.x as int, WORLD_MIN as int, c.z as int, l as int, i as int));
            assert(to == corner(
                c.x as int,
                WORLD_TOP as int,
                c.z as int,
                l as int,
                (i as int + 1) % 4,
            ));
        }
        cmds.push(fill(&from, &to, block, None));
        i += 1;
    }
    cmds
}

/// Escapes a command, so that it can stand inside another command.
pub fn esc(c: &str) -> (r: String)
    ensures
        r@ == escaped(c@),
{
    let len = c.unicode_len();
    let mut text = String::new();
    let mut i: usize = 0;
    while i < len
        invariant
            i <= len,
            len == c@.len(),
            text@ == escaped(c@.take(i as int)),
        decreases len - i,
    {
        let ch = c.get_char(i);
        proof {
            assert(c@.take(i + 1).drop_last() == c@.take(i as int));
            assert(c@.take(i + 1).last() == ch);
        }
        if ch == '"' {
            text.append("\\\\\"");
        } else if ch == '\'' {
            text.append("\\\\'");
        } else if ch == '\\' {
            text.append("\\\\");
        } else {
            let one = c.substring_char(i, i + 1);
            proof {
                assert(one@ == seq![ch]);
            }
            text.append(one);
        }
        i += 1;
    }
    proof {
        assert(c@.take(len as int) == c@);
    }
    text
}

/// One command that runs every command of `cmds`, in order.
pub fn chain(cmds: Vec<Command>) -> (r: Command)
    ensures
        r@ == chain_text(cmds@),
{
    // create a list of passenger command blocks minecarts from escaped commands
    let mut passengers = String::new();
    let mut i: usize = 0;
    while i < cmds.len()
        invariant
            i <= cmds.len(),
            passengers@ == passengers_text(cmds@, i as int),
        decreases cmds.len() - i,
    {
        passengers.append("{id:command_block_minecart,Command:'");
        passengers.append(esc(cmds[i].as_str()).as_str());
        passengers.append("'},");
        i += 1;
    }
    // add one final command block to remove all previous command block minecarts in the chain
    passengers.append(
        "{{id:command_block_minecart,Command:'kill @e[type=minecraft:command_block_minecart,distance=..1]'}}",
    );

    let mut text = String::from_str(
        "summon falling_block ~ ~1 ~ {Time:1,BlockState:{Name:activator_rail},Passengers:[",
    );
    text.append(passengers.as_str());
    text.append("]}");
    text
}

} // verus!
