//! The Wavefront OBJ text the level is loaded from: what each line is, the
//! vertex references of a face, and the triangles a face is cut into.
//!
//! Coordinates are floating point and are read by the caller; everything about
//! the layout of the text is decided here.
use vstd::prelude::*;
use vstd::string::StrSliceExecFns;
use crate::text::{chars_of, contains, ends_with, has_infix, has_prefix, has_suffix, parsed_usize, parse_usize, split_whitespace, starts_with, whitespace_words};

verus! {

/// The kinds of OBJ lines the loader cares about.
#[derive(Clone, Copy, PartialEq, Eq, Structural, Debug, Hash)]
pub enum ObjLine {
    /// `v x y z`: a vertex position.
    Position,
    /// `vn x y z`: a vertex normal.
    Normal,
    /// `vt u v`: a texture coordinate.
    TexCoord,
    /// `f a b c ...`: a face, as a list of vertex references.
    Face,
    /// `o name`, `g name` or `usemtl name`: the current mesh ends here.
    MeshBoundary,
    /// `mtllib path`: a material library to load.
    MaterialLibrary,
    /// Anything else, which is skipped.
    Other,
}

/// The kind of the OBJ line `line`, the first matching prefix deciding.
pub open spec fn obj_line_kind(line: Seq<char>) -> ObjLine {
    if has_prefix(line, "v "@) {
        ObjLine::Position
    } else if has_prefix(line, "vn "@) {
        ObjLine::Normal
    } else if has_prefix(line, "vt "@) {
        ObjLine::TexCoord
    } else if has_prefix(line, "f "@) {
        ObjLine::Face
    } else if has_prefix(line, "o "@) || has_prefix(line, "g "@) || has_prefix(line, "usemtl "@) {
        ObjLine::MeshBoundary
    } else if has_prefix(line, "mtllib "@) {
        ObjLine::MaterialLibrary
    } else {
        ObjLine::Other
    }
}

/// Tells what an OBJ line is.
pub fn classify_line(line: &str) -> (res: ObjLine)
    ensures
        res == obj_line_kind(line@),
{
    if starts_with(line, "v ") {
        ObjLine::Position
    } else if starts_with(line, "vn ") {
        ObjLine::Normal
    } else if starts_with(line, "vt ") {
        ObjLine::TexCoord
    } else if starts_with(line, "f ") {
        ObjLine::Face
    } else if starts_with(line, "o ") || starts_with(line, "g ") || starts_with(line, "usemtl ") {
        ObjLine::MeshBoundary
    } else if starts_with(line, "mtllib ") {
        ObjLine::MaterialLibrary
    } else {
        ObjLine::Other
    }
}

/// The index of the first `c` in `s`, or the length of `s` if there is none.
pub open spec fn first_index_of(s: Seq<char>, c: char) -> nat
    decreases s.len(),
{
    if s.len() == 0 {
        0
    } else if s[0] == c {
        0
    } else {
        1 + first_index_of(s.drop_first(), c)
    }
}

/// The `k`-th piece of `s` when it is cut at every `c`, counting from 0, if it has that many.
pub open spec fn field(s: Seq<char>, c: char, k: nat) -> Option<Seq<char>>
    decreases k,
{
    let i = first_index_of(s, c);
    if k == 0 {
        Some(s.take(i as int))
    } else if i < s.len() {
        field(s.skip(i + 1 as int), c, (k - 1) as nat)
    } else {
        None
    }
}

/// The first `c` of `s` is at `i` when none comes before and `i` holds one or is the end.
pub(crate) proof fn lemma_first_index_of(s: Seq<char>, c: char, i: int)
    requires
        0 <= i <= s.len(),
        forall|k: int| 0 <= k < i ==> s[k] != c,
        i == s.len() || s[i] == c,
    ensures
        first_index_of(s, c) == i,
    decreases i,
{
    if i > 0 {
        lemma_first_index_of(s.drop_first(), c, i - 1);
    }
}

/// Where the `k`-th piece of `chars` cut at `c` begins and ends.
fn field_range(chars: &Vec<char>, c: char, k: usize) -> (res: Option<(usize, usize)>)
    ensures
        match res {
            Some((from, to)) => from <= to <= chars.len() && field(chars@, c, k as nat) == Some(
                chars@.subrange(from as int, to as int),
            ),
            None => field(chars@, c, k as nat) is None,
        },
{
    let mut start: usize = 0;
    let mut left: usize = k;
    assert(chars@.skip(0) =~= chars@);
    loop
        invariant
            start <= chars.len(),
            left <= k,
            field(chars@, c, k as nat) == field(chars@.skip(start as int), c, left as nat),
        decreases left,
    {
        let mut end = start;
        while end < chars.len() && chars[end] != c
            invariant
                start <= end <= chars.len(),
                forall|i: int| start <= i < end ==> chars@[i] != c,
            decreases chars.len() - end,
        {
            end = end + 1;
        }
        let ghost rest = chars@.skip(start as int);
        proof {
            lemma_first_index_of(rest, c, end - start);
        }
        if left == 0 {
            assert(rest.take(end - start) =~= chars@.subrange(start as int, end as int));
            return Some((start, end));
        }
        if end == chars.len() {
            return None;
        }
        assert(rest.skip(end - start + 1) =~= chars@.skip(end + 1));
        start = end + 1;
        left = left - 1;
    }
}

/// One corner of a face: the indices, counted from 1, of its position, of its
/// texture coordinate if it has one, and of its normal.
#[derive(Clone, Copy, PartialEq, Eq, Structural, Debug, Hash)]
pub struct FaceVertex {
    pub position: usize,
    pub tex_coord: Option<usize>,
    pub normal: usize,
}

/// The corner that the text `token` (`v/vt/vn`, or `v//vn` without a texture
/// coordinate) describes, if it is one.
pub open spec fn face_vertex_spec(token: Seq<char>) -> Option<FaceVertex> {
    match (field(token, '/', 0), field(token, '/', 1), field(token, '/', 2)) {
        (Some(p), Some(t), Some(n)) => {
            match (parsed_usize(p), parsed_usize(n)) {
                (Some(position), Some(normal)) => {
                    if t.len() == 0 {
                        Some(FaceVertex { position, tex_coord: None, normal })
                    } else {
                        match parsed_usize(t) {
                            Some(tc) => Some(FaceVertex { position, tex_coord: Some(tc), normal }),
                            None => None,
                        }
                    }
                },
                _ => None,
            }
        },
        _ => None,
    }
}

/// Reads one corner of a face, `v/vt/vn` or `v//vn`; pieces after the third are ignored.
pub fn parse_face_vertex(token: &str) -> (res: Option<FaceVertex>)
    ensures
        res == face_vertex_spec(token@),
{
    let chars = chars_of(token);
    let p = field_range(&chars, '/', 0);
    let t = field_range(&chars, '/', 1);
    let n = field_range(&chars, '/', 2);
    match (p, t, n) {
        (Some((p0, p1)), Some((t0, t1)), Some((n0, n1))) => {
            let position = parse_usize(token.substring_char(p0, p1));
            let normal = parse_usize(token.substring_char(n0, n1));
            match (position, normal) {
                (Some(position), Some(normal)) => {
                    if t0 == t1 {
                        Some(FaceVertex { position, tex_coord: None, normal })
                    } else {
                        match parse_usize(token.substring_char(t0, t1)) {
                            Some(tc) => Some(FaceVertex { position, tex_coord: Some(tc), normal }),
                            None => None,
                        }
                    }
                },
                _ => None,
            }
        },
        _ => None,
    }
}

/// The corner texts of a face line: its words after the first.
pub open spec fn corner_words(line: Seq<char>) -> Seq<Seq<char>> {
    let words = whitespace_words(line);
    if words.len() > 0 {
        words.drop_first()
    } else {
        words
    }
}

/// Reads the corners of an `f` line, in order; `None` when one of them is not a
/// corner.
pub fn face_corners(line: &str) -> (res: Option<Vec<FaceVertex>>)
    ensures
        match res {
            Some(v) => v@.len() == corner_words(line@).len() && forall|i: int|
                0 <= i < v@.len() ==> face_vertex_spec(#[trigger] corner_words(line@)[i]) == Some(v@[i]),
            None => exists|i: int|
                0 <= i < corner_words(line@).len() && #[trigger] face_vertex_spec(corner_words(line@)[i]) is None,
        },
{
    let words = split_whitespace(line);
    let ghost ws = words@.map_values(|w: String| w@);
    let ghost cw = corner_words(line@);
    let mut corners: Vec<FaceVertex> = Vec::new();
    if words.len() == 0 {
        return Some(corners);
    }
    let mut i: usize = 1;
    while i < words.len()
        invariant
            1 <= i <= words.len(),
            ws == words@.map_values(|w: String| w@),
            ws == whitespace_words(line@),
            cw == corner_words(line@),
            cw == ws.drop_first(),
            corners@.len() == i - 1,
            forall|k: int| 0 <= k < i - 1 ==> face_vertex_spec(#[trigger] cw[k]) == Some(corners@[k]),
        decreases words.len() - i,
    {
        let w = words[i].as_str();
        assert(cw[i - 1] == w@);
        match parse_face_vertex(w) {
            Some(c) => corners.push(c),
            None => {
                assert(face_vertex_spec(cw[i - 1]) is None);
                return None;
            },
        }
        i = i + 1;
    }
    Some(corners)
}

/// The triangles of the fan over `face`: corner 0 with each pair of neighbours.
pub open spec fn fan<T>(face: Seq<T>) -> Seq<T>
    decreases face.len(),
{
    if face.len() < 3 {
        Seq::empty()
    } else {
        fan(face.drop_last()).add(seq![face[0], face[face.len() - 2], face.last()])
    }
}

/// A face with `n` corners, `n` at least 3, is cut into `n - 2` triangles, each
/// with the first corner and two neighbouring ones; smaller faces give none.
pub proof fn lemma_fan_triangles<T>(face: Seq<T>)
    ensures
        face.len() < 3 ==> fan(face).len() == 0,
        face.len() >= 3 ==> fan(face).len() == 3 * (face.len() - 2),
        forall|k: int|
            0 <= k < face.len() - 2 ==> {
                &&& #[trigger] fan(face)[3 * k] == face[0]
                &&& fan(face)[3 * k + 1] == face[k + 1]
                &&& fan(face)[3 * k + 2] == face[k + 2]
            },
    decreases face.len(),
{
    if face.len() >= 3 {
        let f = face.drop_last();
        lemma_fan_triangles(f);
        assert forall|k: int| 0 <= k < face.len() - 2 implies {
            &&& #[trigger] fan(face)[3 * k] == face[0]
            &&& fan(face)[3 * k + 1] == face[k + 1]
            &&& fan(face)[3 * k + 2] == face[k + 2]
        } by {
            if k < face.len() - 3 {
                assert(fan(f)[3 * k] == f[0]);
                assert(fan(f)[3 * k + 1] == f[k + 1]);
                assert(fan(f)[3 * k + 2] == f[k + 2]);
            }
        }
    }
}

/// Cuts a face into a fan of triangles and appends their corners to `geometry`.
pub fn push_fan<T: Copy>(geometry: &mut Vec<T>, face: &Vec<T>)
    ensures
        final(geometry)@ == old(geometry)@ + fan(face@),
{
    let ghost start = geometry@;
    if face.len() < 3 {
        assert(geometry@ =~= start + fan(face@));
        return;
    }
    let mut i: usize = 2;
    assert(fan(face@.take(2)) == Seq::<T>::empty());
    assert(geometry@ =~= start + fan(face@.take(2)));
    while i < face.len()
        invariant
            2 <= i <= face.len(),
            geometry@ == start + fan(face@.take(i as int)),
        decreases face.len() - i,
    {
        geometry.push(face[0]);
        geometry.push(face[i - 1]);
        geometry.push(face[i]);
        proof {
            let f = face@.take(i + 1);
            assert(f.drop_last() =~= face@.take(i as int));
        }
        i = i + 1;
    }
    assert(face@.take(face.len() as int) =~= face@);
}

/// A mesh read from an OBJ file: its object name, the name of its material and
/// the corners of its triangles, three by three.
pub struct ObjGroup<T> {
    pub name: String,
    pub material: String,
    pub geometry: Vec<T>,
}

/// The state of an OBJ file being read line by line.
pub struct ObjReader<T> {
    /// The name of the object being read.
    pub name: String,
    /// The material in use.
    pub material: String,
    /// The triangle corners read since the last mesh ended.
    pub geometry: Vec<T>,
    /// The meshes finished so far, in file order.
    pub meshes: Vec<ObjGroup<T>>,
}

/// The meshes after the current one is closed: it is kept only if it has corners.
pub open spec fn closed_meshes<T>(reader: &ObjReader<T>) -> Seq<(Seq<char>, Seq<char>, Seq<T>)> {
    let done = reader.meshes@.map_values(|m: ObjGroup<T>| (m.name@, m.material@, m.geometry@));
    if reader.geometry@.len() > 0 {
        done.push((reader.name@, reader.material@, reader.geometry@))
    } else {
        done
    }
}

/// Meshes without corners are never kept: if every finished mesh of `reader` has
/// corners, so does every mesh once the current one is closed. A reader starts
/// with no finished mesh, so every mesh it hands out has corners.
pub proof fn lemma_closed_meshes_have_corners<T>(reader: &ObjReader<T>)
    requires
        forall|i: int| 0 <= i < reader.meshes@.len() ==> #[trigger] reader.meshes@[i].geometry@.len() > 0,
    ensures
        forall|i: int| 0 <= i < closed_meshes(reader).len() ==> #[trigger] closed_meshes(reader)[i].2.len() > 0,
{
    let done = reader.meshes@.map_values(|m: ObjGroup<T>| (m.name@, m.material@, m.geometry@));
    assert forall|i: int| 0 <= i < closed_meshes(reader).len() implies #[trigger] closed_meshes(reader)[i].2.len() > 0 by {
        if i < done.len() {
            assert(closed_meshes(reader)[i] == done[i]);
            assert(reader.meshes@[i].geometry@.len() > 0);
        }
    }
}

impl<T: Copy> ObjReader<T> {
    /// The meshes read so far, as (name, material, corners).
    pub open spec fn finished(&self) -> Seq<(Seq<char>, Seq<char>, Seq<T>)> {
        self.meshes@.map_values(|m: ObjGroup<T>| (m.name@, m.material@, m.geometry@))
    }

    /// A reader at the start of a file: the object is `__unnamed__`, the material
    /// has the empty name, and nothing is read yet.
    pub fn new() -> (res: Self)
        ensures
            res.name@ == "__unnamed__"@,
            res.material@ == ""@,
            res.geometry@ == Seq::<T>::empty(),
            res.finished() == Seq::<(Seq<char>, Seq<char>, Seq<T>)>::empty(),
    {
        let res = ObjReader {
            name: "__unnamed__".to_owned(),
            material: "".to_owned(),
            geometry: Vec::new(),
            meshes: Vec::new(),
        };
        assert(res.finished() =~= Seq::<(Seq<char>, Seq<char>, Seq<T>)>::empty());
        res
    }

    /// Adds the triangles of a face, cut as a fan, to the current mesh.
    pub fn add_face(&mut self, face: &Vec<T>)
        ensures
            final(self).geometry@ == old(self).geometry@ + fan(face@),
            final(self).name@ == old(self).name@,
            final(self).material@ == old(self).material@,
            final(self).finished() == old(self).finished(),
    {
        push_fan(&mut self.geometry, face);
    }

    /// Ends the current mesh, keeping it if it has any corners.
    fn close_mesh(&mut self)
        ensures
            final(self).finished() == closed_meshes(old(self)),
            final(self).geometry@ == Seq::<T>::empty(),
            final(self).name@ == old(self).name@,
            final(self).material@ == old(self).material@,
    {
        if self.geometry.len() > 0 {
            let mut geometry: Vec<T> = Vec::new();
            std::mem::swap(&mut geometry, &mut self.geometry);
            let mesh = ObjGroup { name: self.name.clone(), material: self.material.clone(), geometry };
            self.meshes.push(mesh);
            assert(self.finished() =~= closed_meshes(old(self)));
        } else {
            assert(self.finished() =~= closed_meshes(old(self)));
        }
    }

    /// Handles an `o`, `g` or `usemtl` line: the current mesh ends, and a new
    /// object name or material takes effect.
    pub fn mesh_boundary(&mut self, line: &str)
        requires
            obj_line_kind(line@) == ObjLine::MeshBoundary,
        ensures
            final(self).finished() == closed_meshes(old(self)),
            final(self).geometry@ == Seq::<T>::empty(),
            has_prefix(line@, "o "@) || has_prefix(line@, "g "@) ==> {
                &&& final(self).name@ == line@.skip(2)
                &&& final(self).material@ == old(self).material@
            },
            !(has_prefix(line@, "o "@) || has_prefix(line@, "g "@)) ==> {
                &&& final(self).name@ == old(self).name@
                &&& final(self).material@ == line@.skip(7)
            },
    {
        self.close_mesh();
        if starts_with(line, "o ") || starts_with(line, "g ") {
            proof {
                reveal_strlit("o ");
                reveal_strlit("g ");
            }
            let len = line.unicode_len();
            self.name = line.substring_char(2, len).to_owned();
        } else {
            proof {
                reveal_strlit("usemtl ");
            }
            let len = line.unicode_len();
            self.material = line.substring_char(7, len).to_owned();
        }
    }

    /// Ends the file: the last mesh is closed, and all meshes are handed out in file order.
    pub fn finish(self) -> (res: Vec<ObjGroup<T>>)
        ensures
            res@.map_values(|m: ObjGroup<T>| (m.name@, m.material@, m.geometry@)) == closed_meshes(&self),
    {
        let mut reader = self;
        reader.close_mesh();
        reader.meshes
    }
}

impl<T> ObjGroup<T> {
    /// Meshes whose name ends in `_Dark` show their dark texture where the others show the light one.
    pub fn uses_dark_texture(&self) -> (res: bool)
        ensures
            res == has_suffix(self.name@, "_Dark"@),
    {
        ends_with(self.name.as_str(), "_Dark")
    }

    /// Meshes whose name begins with `B_` are billboards: they are drawn turned to the camera.
    pub fn is_billboard(&self) -> (res: bool)
        ensures
            res == has_prefix(self.name@, "B_"@),
    {
        starts_with(self.name.as_str(), "B_")
    }
}

/// Meshes that may be joined with others of the same material: every mesh but
/// doors, interactables, triggers, spawns, lights, symbols and a few props that
/// the game must find or move on their own.
pub open spec fn mergeable_name(name: Seq<char>) -> bool {
    !(has_prefix(name, "D"@) || has_prefix(name, "I"@) || has_prefix(name, "RDC"@) || has_prefix(name, "TC"@)
        || has_infix(name, "Spawn"@) || has_infix(name, "Light"@) || has_infix(name, "Symbol"@)
        || has_infix(name, "SwingingSwing"@) || has_infix(name, "SingingGirl"@) || has_infix(name, "S_PianoKeys"@)
        || has_prefix(name, "AF_"@) || has_prefix(name, "B_Candle"@) || has_prefix(name, "S_MusicBox"@))
}

/// The meshes the game must find or move on their own: doors (`D`), interactables
/// (`I`), room outlines (`RDC`), triggers (`TC`), and every mesh whose name holds
/// `Spawn`, `Light`, `Symbol`, `SwingingSwing`, `SingingGirl` or `S_PianoKeys`, or
/// begins with `AF_`, `B_Candle` or `S_MusicBox`.
pub open spec fn kept_apart(name: Seq<char>) -> bool {
    ||| has_prefix(name, "D"@)
    ||| has_prefix(name, "I"@)
    ||| has_prefix(name, "RDC"@)
    ||| has_prefix(name, "TC"@)
    ||| has_infix(name, "Spawn"@)
    ||| has_infix(name, "Light"@)
    ||| has_infix(name, "Symbol"@)
    ||| has_infix(name, "SwingingSwing"@)
    ||| has_infix(name, "SingingGirl"@)
    ||| has_infix(name, "S_PianoKeys"@)
    ||| has_prefix(name, "AF_"@)
    ||| has_prefix(name, "B_Candle"@)
    ||| has_prefix(name, "S_MusicBox"@)
}

/// None of the meshes the game must find or move on its own may be joined with another.
pub proof fn lemma_kept_apart_unmergeable(name: Seq<char>)
    ensures
        kept_apart(name) ==> !mergeable_name(name),
{
}

proof fn lemma_unmergeable_kept<T>(ms: Seq<(Seq<char>, Seq<char>, Seq<T>)>, i: int)
    requires
        0 <= i < ms.len(),
        !mergeable_name(ms[i].0),
    ensures
        exists|k: int| 0 <= k < merged_meshes(ms).len() && #[trigger] merged_meshes(ms)[k] == ms[i],
    decreases ms.len(),
{
    let d = ms.drop_last();
    let done = merged_meshes(d);
    let m = ms.last();
    lemma_first_join(done, m);
    let f = first_join(done, m);
    let r = merged_meshes(ms);
    if i == ms.len() - 1 {
        if f >= 0 {
            assert(joins(done, m, f));
        }
        assert(r[done.len() as int] == ms[i]);
    } else {
        assert(d[i] == ms[i]);
        lemma_unmergeable_kept(d, i);
        let k = choose|k: int| 0 <= k < done.len() && #[trigger] done[k] == d[i];
        if f >= 0 {
            assert(joins(done, m, f));
            assert(f != k);
        }
        assert(r[k] == ms[i]);
    }
}

/// Merging never joins a mesh that the game must find or move on its own: every such
/// mesh of the input stands in the result as it was, with its own name, material
/// and corners, and no other mesh's corners appended.
pub proof fn lemma_merge_keeps_apart<T>(ms: Seq<(Seq<char>, Seq<char>, Seq<T>)>, i: int)
    requires
        0 <= i < ms.len(),
        kept_apart(ms[i].0),
    ensures
        exists|k: int| 0 <= k < merged_meshes(ms).len() && #[trigger] merged_meshes(ms)[k] == ms[i],
{
    lemma_kept_apart_unmergeable(ms[i].0);
    lemma_unmergeable_kept(ms, i);
}

/// Whether a mesh called `name` may be joined with others of its material.
pub fn mergeable(name: &str) -> (res: bool)
    ensures
        res == mergeable_name(name@),
        kept_apart(name@) ==> !res,
{
    proof {
        lemma_kept_apart_unmergeable(name@);
    }
    !(starts_with(name, "D") || starts_with(name, "I") || starts_with(name, "RDC") || starts_with(name, "TC")
        || contains(name, "Spawn") || contains(name, "Light") || contains(name, "Symbol")
        || contains(name, "SwingingSwing") || contains(name, "SingingGirl") || contains(name, "S_PianoKeys")
        || starts_with(name, "AF_") || starts_with(name, "B_Candle") || starts_with(name, "S_MusicBox"))
}

/// Mesh `k` of `done` can take in `m`: both may be joined and they share a material.
pub open spec fn joins<T>(done: Seq<(Seq<char>, Seq<char>, Seq<T>)>, m: (Seq<char>, Seq<char>, Seq<T>), k: int) -> bool {
    &&& 0 <= k < done.len()
    &&& mergeable_name(done[k].0)
    &&& mergeable_name(m.0)
    &&& done[k].1 == m.1
}

/// The first mesh of `done` that can take in `m`, or -1.
pub open spec fn first_join<T>(done: Seq<(Seq<char>, Seq<char>, Seq<T>)>, m: (Seq<char>, Seq<char>, Seq<T>)) -> int
    decreases done.len(),
{
    if done.len() == 0 {
        -1
    } else {
        let f = first_join(done.drop_last(), m);
        if f >= 0 {
            f
        } else if joins(done, m, done.len() - 1) {
            done.len() - 1
        } else {
            -1
        }
    }
}

/// The meshes of `ms` with every joinable mesh appended to the first earlier
/// mesh of its material that may be joined, which keeps its place.
pub open spec fn merged_meshes<T>(ms: Seq<(Seq<char>, Seq<char>, Seq<T>)>) -> Seq<(Seq<char>, Seq<char>, Seq<T>)>
    decreases ms.len(),
{
    if ms.len() == 0 {
        Seq::empty()
    } else {
        let done = merged_meshes(ms.drop_last());
        let m = ms.last();
        let k = first_join(done, m);
        if k >= 0 {
            done.update(k, (done[k].0, done[k].1, done[k].2 + m.2))
        } else {
            done.push(m)
        }
    }
}

proof fn lemma_first_join<T>(done: Seq<(Seq<char>, Seq<char>, Seq<T>)>, m: (Seq<char>, Seq<char>, Seq<T>))
    ensures
        -1 <= first_join(done, m) < done.len(),
        first_join(done, m) >= 0 ==> joins(done, m, first_join(done, m)),
        forall|k: int| 0 <= k < done.len() && (first_join(done, m) < 0 || k < first_join(done, m)) ==> !joins(done, m, k),
    decreases done.len(),
{
    if done.len() > 0 {
        let d = done.drop_last();
        lemma_first_join(d, m);
        assert forall|k: int| 0 <= k < d.len() implies joins(d, m, k) == joins(done, m, k) by {}
    }
}

/// No two meshes in the result of a merge could still be joined.
pub proof fn lemma_merged_meshes_cannot_join<T>(ms: Seq<(Seq<char>, Seq<char>, Seq<T>)>)
    ensures
        forall|a: int, b: int|
            0 <= a < b < merged_meshes(ms).len() ==> !joins(merged_meshes(ms), merged_meshes(ms)[b], a),
    decreases ms.len(),
{
    if ms.len() > 0 {
        let done = merged_meshes(ms.drop_last());
        let m = ms.last();
        lemma_merged_meshes_cannot_join(ms.drop_last());
        lemma_first_join(done, m);
        let r = merged_meshes(ms);
        assert forall|a: int, b: int| 0 <= a < b < r.len() implies !joins(r, r[b], a) by {
            if b < done.len() {
                assert(!joins(done, done[b], a));
                assert(r[a].0 == done[a].0 && r[a].1 == done[a].1);
                assert(r[b].0 == done[b].0 && r[b].1 == done[b].1);
            } else {
                assert(first_join(done, m) < 0);
                assert(r[b] == m);
                assert(!joins(done, m, a));
                assert(r[a] == done[a]);
            }
        }
    }
}

proof fn lemma_merge_keeps_unjoinable<T>(ms: Seq<(Seq<char>, Seq<char>, Seq<T>)>)
    requires
        forall|a: int, b: int| 0 <= a < b < ms.len() ==> !joins(ms, ms[b], a),
    ensures
        merged_meshes(ms) == ms,
    decreases ms.len(),
{
    if ms.len() > 0 {
        let d = ms.drop_last();
        assert forall|a: int, b: int| 0 <= a < b < d.len() implies !joins(d, d[b], a) by {
            assert(!joins(ms, ms[b], a));
        }
        lemma_merge_keeps_unjoinable(d);
        lemma_first_join(d, ms.last());
        if first_join(d, ms.last()) >= 0 {
            let k = first_join(d, ms.last());
            assert(joins(d, ms.last(), k));
            assert(!joins(ms, ms[ms.len() - 1], k));
        }
        assert(d.push(ms.last()) =~= ms);
    }
}

/// Merging twice gives what merging once gives: after a merge no two meshes can
/// be joined, and such a list is left as it is.
pub proof fn lemma_merge_twice_is_merge_once<T>(ms: Seq<(Seq<char>, Seq<char>, Seq<T>)>)
    ensures
        merged_meshes(merged_meshes(ms)) == merged_meshes(ms),
{
    lemma_merged_meshes_cannot_join(ms);
    lemma_merge_keeps_unjoinable(merged_meshes(ms));
}

/// The total number of corners in `ms`.
pub open spec fn corner_count<T>(ms: Seq<(Seq<char>, Seq<char>, Seq<T>)>) -> nat
    decreases ms.len(),
{
    if ms.len() == 0 {
        0
    } else {
        corner_count(ms.drop_last()) + ms.last().2.len()
    }
}

proof fn lemma_corner_count_update<T>(ms: Seq<(Seq<char>, Seq<char>, Seq<T>)>, k: int, x: (Seq<char>, Seq<char>, Seq<T>))
    requires
        0 <= k < ms.len(),
    ensures
        corner_count(ms.update(k, x)) + ms[k].2.len() == corner_count(ms) + x.2.len(),
    decreases ms.len(),
{
    let u = ms.update(k, x);
    if k < ms.len() - 1 {
        lemma_corner_count_update(ms.drop_last(), k, x);
        assert(u.drop_last() =~= ms.drop_last().update(k, x));
    } else {
        assert(u.drop_last() =~= ms.drop_last());
    }
}

/// Joining meshes keeps every corner: the result has as many as the meshes it was made from.
pub proof fn lemma_merged_meshes_keep_corners<T>(ms: Seq<(Seq<char>, Seq<char>, Seq<T>)>)
    ensures
        corner_count(merged_meshes(ms)) == corner_count(ms),
    decreases ms.len(),
{
    if ms.len() > 0 {
        let done = merged_meshes(ms.drop_last());
        let m = ms.last();
        lemma_merged_meshes_keep_corners(ms.drop_last());
        lemma_first_join(done, m);
        let k = first_join(done, m);
        if k >= 0 {
            lemma_corner_count_update(done, k, (done[k].0, done[k].1, done[k].2 + m.2));
        } else {
            assert(done.push(m).drop_last() =~= done);
        }
    }
}

/// Joins the meshes that may be joined: each joinable mesh goes to the end of the
/// first earlier joinable mesh of its material, and the others keep their order.
pub fn merge_meshes<T>(meshes: Vec<ObjGroup<T>>) -> (res: Vec<ObjGroup<T>>)
    ensures
        res@.map_values(|m: ObjGroup<T>| (m.name@, m.material@, m.geometry@)) == merged_meshes(
            meshes@.map_values(|m: ObjGroup<T>| (m.name@, m.material@, m.geometry@)),
        ),
{
    let ghost input = meshes@.map_values(|m: ObjGroup<T>| (m.name@, m.material@, m.geometry@));
    let mut out: Vec<ObjGroup<T>> = Vec::new();
    let ghost mut i: int = 0;
    assert(input.take(0) =~= Seq::<(Seq<char>, Seq<char>, Seq<T>)>::empty());
    for m in it: meshes.into_iter()
        invariant
            it.seq() == meshes@,
            input == meshes@.map_values(|m: ObjGroup<T>| (m.name@, m.material@, m.geometry@)),
            out@.map_values(|m: ObjGroup<T>| (m.name@, m.material@, m.geometry@)) == merged_meshes(
                input.take(it.index() as int),
            ),
    {
        let mut m = m;
        let ghost done = out@.map_values(|m: ObjGroup<T>| (m.name@, m.material@, m.geometry@));
        let ghost mv = (m.name@, m.material@, m.geometry@);
        proof {
            lemma_first_join(done, mv);
            assert(input.take(it.index() + 1).drop_last() =~= input.take(it.index() as int));
            assert(input.take(it.index() + 1).last() == mv);
        }
        let m_joins = mergeable(m.name.as_str());
        let mut hit = false;
        let mut k: usize = 0;
        while !hit && k < out.len()
            invariant
                0 <= k <= out.len(),
                done == out@.map_values(|m: ObjGroup<T>| (m.name@, m.material@, m.geometry@)),
                mv == (m.name@, m.material@, m.geometry@),
                m_joins == mergeable_name(mv.0),
                forall|j: int| 0 <= j < k ==> !joins(done, mv, j),
                hit ==> k < out.len() && joins(done, mv, k as int),
            decreases out.len() - k + if hit { 0int } else { 1int },
        {
            if m_joins && mergeable(out[k].name.as_str()) && out[k].material == m.material {
                hit = true;
            } else {
                k = k + 1;
            }
        }
        let found: Option<usize> = if hit {
            Some(k)
        } else {
            None
        };
        proof {
            let fj = first_join(done, mv);
            if hit {
                if fj < 0 {
                    assert(!joins(done, mv, k as int));
                } else if fj < k {
                    assert(!joins(done, mv, fj));
                } else if fj > k {
                    assert(!joins(done, mv, k as int));
                }
                assert(fj == k);
            } else if fj >= 0 {
                assert(joins(done, mv, fj));
                assert(!joins(done, mv, fj));
            }
        }
        match found {
            Some(f) => {
                let mut target = out.remove(f);
                target.geometry.append(&mut m.geometry);
                out.insert(f, target);
                assert(out@.map_values(|m: ObjGroup<T>| (m.name@, m.material@, m.geometry@)) =~= done.update(
                    f as int,
                    (done[f as int].0, done[f as int].1, done[f as int].2 + mv.2),
                ));
            },
            None => {
                assert(first_join(done, mv) < 0);
                out.push(m);
                assert(out@.map_values(|m: ObjGroup<T>| (m.name@, m.material@, m.geometry@)) =~= done.push(mv));
            },
        }
    }
    assert(input.take(input.len() as int) =~= input);
    out
}

} // verus!
