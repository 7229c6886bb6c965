//! The Wavefront MTL text that names the level's materials and their textures.
//!
//! Only the names are read here; the textures are loaded by the caller, each from
//! the path of the material library's directory joined with the path given here.
use vstd::prelude::*;
use vstd::string::{StrSliceExecFns, StringExecFns};
use crate::text::{ends_with, has_prefix, has_suffix, same_text, split_whitespace, starts_with, trim, trimmed, whitespace_words};

verus! {

/// The name of a texture's dark variant: `x.png` has `x_Dark.png`.
pub open spec fn dark_variant(path: Seq<char>) -> Seq<char> {
    path.take(path.len() - 4) + "_Dark.png"@
}

/// The path of the dark variant of the texture `path`; `None` when `path` does not
/// end in `.png`.
pub fn dark_texture_path(path: &str) -> (res: Option<String>)
    ensures
        match res {
            Some(d) => has_suffix(path@, ".png"@) && d@ == dark_variant(path@),
            None => !has_suffix(path@, ".png"@),
        },
{
    if !ends_with(path, ".png") {
        return None;
    }
    proof {
        reveal_strlit(".png");
    }
    let len = path.unicode_len();
    let stem = path.substring_char(0, len - 4).to_owned();
    Some(stem.concat("_Dark.png"))
}

/// A material: its name and, when it has a texture, the paths of the texture and
/// of its dark variant.
pub struct MaterialPaths {
    pub name: String,
    pub texture: Option<String>,
    pub dark_texture: Option<String>,
}

/// The view of an optional text.
pub open spec fn opt_text(o: Option<String>) -> Option<Seq<char>> {
    match o {
        Some(s) => Some(s@),
        None => None,
    }
}

/// The view of a material: its name and its two optional paths.
pub open spec fn material_view(m: MaterialPaths) -> (Seq<char>, Option<Seq<char>>, Option<Seq<char>>) {
    (m.name@, opt_text(m.texture), opt_text(m.dark_texture))
}

/// The state of an MTL file being read line by line.
pub struct MtlReader {
    /// The name of the material being read.
    pub name: String,
    /// Its texture, once a `map_Kd` line named one.
    pub texture: Option<String>,
    /// The dark variant of that texture.
    pub dark_texture: Option<String>,
    /// The materials finished so far, in file order.
    pub materials: Vec<MaterialPaths>,
}

impl MtlReader {
    /// The materials finished so far, as (name, texture, dark texture).
    pub open spec fn finished(&self) -> Seq<(Seq<char>, Option<Seq<char>>, Option<Seq<char>>)> {
        self.materials@.map_values(|m: MaterialPaths| material_view(m))
    }

    /// The material being read, as (name, texture, dark texture).
    pub open spec fn current(&self) -> (Seq<char>, Option<Seq<char>>, Option<Seq<char>>) {
        (self.name@, opt_text(self.texture), opt_text(self.dark_texture))
    }

    /// A reader at the start of a file: the material is `__unnamed__`, without texture.
    pub fn new() -> (res: Self)
        ensures
            res.current() == ("__unnamed__"@, None::<Seq<char>>, None::<Seq<char>>),
            res.finished() == Seq::<(Seq<char>, Option<Seq<char>>, Option<Seq<char>>)>::empty(),
    {
        let res = MtlReader { name: "__unnamed__".to_owned(), texture: None, dark_texture: None, materials: Vec::new() };
        assert(res.finished() =~= Seq::<(Seq<char>, Option<Seq<char>>, Option<Seq<char>>)>::empty());
        res
    }

    /// Ends the material being read and starts the one named `name`, without texture.
    fn start_material(&mut self, name: String)
        ensures
            final(self).finished() == old(self).finished().push(old(self).current()),
            final(self).current() == (name@, None::<Seq<char>>, None::<Seq<char>>),
    {
        let mut texture: Option<String> = None;
        let mut dark_texture: Option<String> = None;
        std::mem::swap(&mut texture, &mut self.texture);
        std::mem::swap(&mut dark_texture, &mut self.dark_texture);
        let mut done_name = name;
        std::mem::swap(&mut done_name, &mut self.name);
        self.materials.push(MaterialPaths { name: done_name, texture, dark_texture });
        assert(self.finished() =~= old(self).finished().push(old(self).current()));
    }

    /// Reads one line. A `map_Kd` line gives the material the texture named by its
    /// last word, unless that word is `.`; a `newmtl` line ends the material and
    /// starts the one it names, trimmed; other lines change nothing. Returns `false`,
    /// changing nothing, for a `map_Kd` line without a word or whose texture does not
    /// end in `.png`.
    pub fn read_line(&mut self, line: &str) -> (ok: bool)
        ensures
            has_prefix(line@, "map_Kd "@) ==> {
                let words = whitespace_words(line@.skip(7));
                &&& final(self).finished() == old(self).finished()
                &&& final(self).name@ == old(self).name@
                &&& ok == (words.len() > 0 && (words.last() == "."@ || has_suffix(words.last(), ".png"@)))
                &&& if ok && words.last() != "."@ {
                    &&& opt_text(final(self).texture) == Some(words.last())
                    &&& opt_text(final(self).dark_texture) == Some(dark_variant(words.last()))
                } else {
                    final(self).current() == old(self).current()
                }
            },
            !has_prefix(line@, "map_Kd "@) && has_prefix(line@, "newmtl "@) ==> {
                &&& ok
                &&& final(self).finished() == old(self).finished().push(old(self).current())
                &&& final(self).current() == (trimmed(line@.skip(7)), None::<Seq<char>>, None::<Seq<char>>)
            },
            !has_prefix(line@, "map_Kd "@) && !has_prefix(line@, "newmtl "@) ==> {
                &&& ok
                &&& final(self).finished() == old(self).finished()
                &&& final(self).current() == old(self).current()
            },
    {
        if starts_with(line, "map_Kd ") {
            proof {
                reveal_strlit("map_Kd ");
            }
            let len = line.unicode_len();
            let words = split_whitespace(line.substring_char(7, len));
            proof {
                assert(words@.map_values(|w: String| w@).len() == words@.len());
            }
            if words.len() == 0 {
                return false;
            }
            let last = words[words.len() - 1].as_str();
            proof {
                assert(words@.map_values(|w: String| w@).last() == last@);
            }
            if same_text(last, ".") {
                return true;
            }
            match dark_texture_path(last) {
                None => false,
                Some(dark) => {
                    self.texture = Some(last.to_owned());
                    self.dark_texture = Some(dark);
                    true
                },
            }
        } else if starts_with(line, "newmtl ") {
            proof {
                reveal_strlit("newmtl ");
            }
            let len = line.unicode_len();
            let name = trim(line.substring_char(7, len));
            self.start_material(name);
            true
        } else {
            true
        }
    }

    /// Ends the file: the last material is finished too, and all are handed out in file order.
    pub fn finish(self) -> (res: Vec<MaterialPaths>)
        ensures
            res@.map_values(|m: MaterialPaths| material_view(m)) == self.finished().push(self.current()),
    {
        let mut reader = self;
        reader.start_material(String::new());
        reader.materials
    }
}

} // verus!
