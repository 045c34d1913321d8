use vstd::prelude::*;
use crate::text::string_concat;
use crate::tree::path_keys;

verus! {

/// The parts joined into one path, each behind a `/`.
pub open spec fn joined_path(parts: Seq<Seq<char>>) -> Seq<char>
    decreases parts.len(),
{
    if parts.len() == 0 {
        Seq::empty()
    } else {
        joined_path(parts.drop_last()) + "/"@ + parts.last()
    }
}

/// Where opening the resource path `parts` leads: a path under `Files`
/// names a file system by its second part, `Files/<root>`, and the file
/// inside it by the parts after that.  `None` for any other path, which names
/// no file.
pub open spec fn open_target_spec(parts: Seq<Seq<char>>) -> Option<(Seq<char>, Seq<char>)> {
    if parts.len() >= 2 && parts[0] == "Files"@ {
        Some(("Files/"@ + parts[1], joined_path(parts.subrange(2, parts.len() as int))))
    } else {
        None
    }
}

/// The file system resource and the path inside it that opening the
/// resource path `parts` goes to, or `None` when `parts` names no file.
pub fn open_target(parts: &Vec<String>) -> (r: Option<(String, String)>)
    ensures
        match r {
            Some((fs, inner)) => open_target_spec(path_keys(parts@)) == Some((fs@, inner@)),
            None => open_target_spec(path_keys(parts@)) is None,
        },
{
    proof {
        reveal_strlit("Files");
    }
    let files = String::from_str("Files");
    if parts.len() < 2 || parts[0] != files {
        return None;
    }
    let fs = string_concat(String::from_str("Files/"), parts[1].as_str());
    let mut inner = String::new();
    let mut i: usize = 2;
    let ghost keys = path_keys(parts@);
    proof {
        assert(keys.subrange(2, 2) =~= Seq::<Seq<char>>::empty());
    }
    while i < parts.len()
        invariant
            2 <= i <= parts@.len(),
            keys == path_keys(parts@),
            inner@ == joined_path(keys.subrange(2, i as int)),
        decreases parts@.len() - i,
    {
        let with_slash = string_concat(inner, "/");
        inner = string_concat(with_slash, parts[i].as_str());
        proof {
            let next = keys.subrange(2, i + 1);
            assert(next.drop_last() =~= keys.subrange(2, i as int));
        }
        i = i + 1;
    }
    proof {
        assert(keys.subrange(2, parts@.len() as int) =~= keys.subrange(2, keys.len() as int));
    }
    Some((fs, inner))
}

} // verus!
