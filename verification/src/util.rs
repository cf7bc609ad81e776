//! Templates, paths and answers to prompts.
use vstd::prelude::*;

use crate::text::{
    concat3, is_blank, join, join_spec, lemma_split_nonempty, replace, replace_spec, split, split_spec, texts,
    to_uppercase, trim_end, trim_end_spec, trim_spec, uppercase_of,
};

verus! {

/// The place holder that a template field fills: `{{KEY}}`, the key upper-cased.
pub open spec fn placeholder(key: Seq<char>) -> Seq<char> {
    seq!['{', '{'] + uppercase_of(key) + seq!['}', '}']
}

/// A list of fields by their texts.
pub open spec fn field_views(fields: Seq<(String, String)>) -> Seq<(Seq<char>, Seq<char>)> {
    fields.map_values(|f: (String, String)| (f.0@, f.1@))
}

/// `template` with the place holder of each field replaced by the field's
/// value, one field after the other in the order given.
pub open spec fn render_spec(template: Seq<char>, fields: Seq<(Seq<char>, Seq<char>)>) -> Seq<char>
    decreases fields.len(),
{
    if fields.len() == 0 {
        template
    } else {
        replace_spec(render_spec(template, fields.drop_last()), placeholder(fields.last().0), fields.last().1)
    }
}

/// Fills the fields of a template: each `{{KEY}}` (the key upper-cased) is
/// replaced by the field's value, one field after the other.
pub fn render(template: &str, fields: &[(String, String)]) -> (res: String)
    ensures
        res@ == render_spec(template@, field_views(fields@)),
{
    let mut prompt = String::from_str(template);
    let mut i: usize = 0;
    while i < fields.len()
        invariant
            i <= fields@.len(),
            prompt@ == render_spec(template@, field_views(fields@).take(i as int)),
        decreases fields@.len() - i,
    {
        let key = to_uppercase(fields[i].0.as_str());
        let pattern = concat3("{{", key.as_str(), "}}");
        proof {
            reveal_strlit("{{");
            reveal_strlit("}}");
            assert(pattern@ =~= placeholder(fields@[i as int].0@));
            assert(field_views(fields@).take(i + 1).drop_last() =~= field_views(fields@).take(i as int));
        }
        prompt = replace(prompt.as_str(), pattern.as_str(), fields[i].1.as_str());
        i = i + 1;
    }
    assert(field_views(fields@).take(fields@.len() as int) =~= field_views(fields@));
    prompt
}

/// `prefix` without one final `/`.
pub open spec fn strip_slash(prefix: Seq<char>) -> Seq<char> {
    if prefix.len() > 0 && prefix.last() == '/' {
        prefix.drop_last()
    } else {
        prefix
    }
}

/// The pieces of a path between its `/` marks, under the directory `prefix`
/// (without its final `/`) where that is not empty.
pub open spec fn path_pieces(path: Seq<char>, prefix: Seq<char>) -> Seq<Seq<char>> {
    let parts = split_spec(path, seq!['/']);
    if strip_slash(prefix).len() > 0 {
        seq![strip_slash(prefix)] + parts
    } else {
        parts
    }
}

/// The directory and the file name of `path` placed under `prefix`: all
/// pieces but the last joined with `/`, and the last piece.
pub open spec fn path_parts_spec(path: Seq<char>, prefix: Seq<char>) -> (Seq<char>, Seq<char>) {
    let pieces = path_pieces(path, prefix);
    (join_spec(pieces.drop_last(), seq!['/']), pieces.last())
}

/// The directory and file name of `path` placed under the directory `prefix`.
pub fn build_path_parts(path: &str, prefix: &str) -> (res: (String, String))
    ensures
        (res.0@, res.1@) == path_parts_spec(path@, prefix@),
{
    proof {
        reveal_strlit("/");
        assert("/"@ =~= seq!['/']);
        lemma_split_nonempty(path@, seq!['/'], 0);
    }
    let v = crate::text::chars_of(prefix);
    let stripped = if v.len() > 0 && v[v.len() - 1] == '/' {
        crate::text::string_from_range(&v, 0, v.len() - 1)
    } else {
        crate::text::string_of(v.as_slice())
    };
    assert(stripped@ == strip_slash(prefix@));
    let parts = split(path, "/");
    let mut pieces: Vec<String> = Vec::new();
    if stripped.unicode_len() > 0 {
        pieces.push(stripped);
    }
    let ghost start = pieces@;
    let mut i: usize = 0;
    while i < parts.len()
        invariant
            i <= parts@.len(),
            texts(pieces@) == texts(start) + texts(parts@).take(i as int),
        decreases parts@.len() - i,
    {
        let ghost before = pieces@;
        pieces.push(parts[i].clone());
        assert(texts(parts@).take(i + 1) =~= texts(parts@).take(i as int).push(parts@[i as int]@));
        assert(texts(pieces@) =~= texts(before).push(parts@[i as int]@));
        i = i + 1;
    }
    assert(texts(parts@).take(parts@.len() as int) =~= texts(parts@));
    assert(texts(pieces@) =~= path_pieces(path@, prefix@));
    let ghost all = pieces@;
    assert(all.len() > 0);
    let file = match pieces.pop() {
        Some(f) => f,
        None => String::new(),
    };
    let dir = join(pieces.as_slice(), "/");
    proof {
        assert(texts(all.drop_last()) =~= texts(all).drop_last());
    }
    (dir, file)
}

/// What a prompt's answer comes to: the default where the answer is blank,
/// and either without trailing white space.
pub open spec fn prompt_answer_spec(response: Seq<char>, default: Seq<char>) -> Seq<char> {
    trim_end_spec(if trim_spec(response).len() == 0 { default } else { response })
}

/// The answer to a prompt, from the line typed and the default.
pub fn prompt_answer(response: &str, default: &str) -> (res: String)
    ensures
        res@ == prompt_answer_spec(response@, default@),
{
    if is_blank(response) {
        trim_end(default)
    } else {
        trim_end(response)
    }
}

} // verus!
