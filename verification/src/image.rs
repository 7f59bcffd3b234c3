//! Container image references.

use vstd::prelude::*;
use crate::text::{from_chars, is, lemma_split_nonempty, push_str, split, split_chars, str_views, to_chars, views};

verus! {

/// A reference completed to the form `docker.io` uses: a bare name is a library
/// image, `docker.io/<image>` too, and `<user>/<image>` lives on `docker.io`;
/// references with more segments stay as they are.
pub open spec fn spec_qualify_image_name(name: Seq<char>) -> Seq<char> {
    let segments = split(name, '/');
    if segments.len() == 1 {
        "docker.io/library/"@ + name
    } else if segments.len() == 2 && segments[0] == "docker.io"@ {
        "docker.io/library/"@ + segments[1]
    } else if segments.len() == 2 {
        "docker.io/"@ + name
    } else {
        name
    }
}

pub fn qualify_image_name(name: &str) -> (r: String)
    ensures
        r@ == spec_qualify_image_name(name@),
{
    let n = to_chars(name);
    let segments = split_chars(&n, '/');
    assert(views(segments@).len() == segments@.len());
    if segments.len() == 1 {
        let mut out = to_chars("docker.io/library/");
        push_str(&mut out, name);
        return from_chars(&out);
    }
    if segments.len() == 2 {
        assert(views(segments@)[0] == segments@[0]@);
        assert(views(segments@)[1] == segments@[1]@);
        if is(&segments[0], "docker.io") {
            let mut out = to_chars("docker.io/library/");
            crate::text::push_all(&mut out, &segments[1]);
            return from_chars(&out);
        }
        let mut out = to_chars("docker.io/");
        push_str(&mut out, name);
        return from_chars(&out);
    }
    from_chars(&n)
}


proof fn lemma_split_after_segment(segment: Seq<char>, rest: Seq<char>)
    requires
        !segment.contains('/'),
    ensures
        split(segment + seq!['/'] + rest, '/') == seq![segment] + split(rest, '/'),
{
    let whole = segment + seq!['/'] + rest;
    assert forall|j: int| 0 <= j < segment.len() implies whole[j] != '/' by {
        assert(whole[j] == segment[j]);
        assert(segment.contains(segment[j]));
    }
    crate::text::lemma_find_char_is(whole, '/', Some(segment.len()));
    assert(whole.take(segment.len() as int) =~= segment);
    assert(whole.skip(segment.len() as int + 1) =~= rest);
}

/// Qualifying an image reference is idempotent: a qualified reference stays as it is.
pub proof fn law_qualify_image_name_is_idempotent(name: Seq<char>)
    ensures
        spec_qualify_image_name(spec_qualify_image_name(name)) == spec_qualify_image_name(name),
{
    reveal_strlit("docker.io/library/");
    reveal_strlit("docker.io/");
    reveal_strlit("docker.io");
    let docker: Seq<char> = "docker.io"@;
    let library: Seq<char> = seq!['l', 'i', 'b', 'r', 'a', 'r', 'y'];
    assert(!docker.contains('/')) by {
        if docker.contains('/') {
            let j = choose|j: int| 0 <= j < docker.len() && docker[j] == '/';
            assert(false);
        }
    }
    assert(!library.contains('/')) by {
        if library.contains('/') {
            let j = choose|j: int| 0 <= j < library.len() && library[j] == '/';
            assert(false);
        }
    }
    let segments = split(name, '/');
    lemma_split_nonempty(name, '/');
    if segments.len() == 1 || (segments.len() == 2 && segments[0] == docker) {
        let tail = if segments.len() == 1 { name } else { segments[1] };
        assert("docker.io/library/"@ + tail =~= docker + seq!['/'] + (library + seq!['/'] + tail));
        lemma_split_after_segment(docker, library + seq!['/'] + tail);
        lemma_split_after_segment(library, tail);
        lemma_split_nonempty(tail, '/');
    } else if segments.len() == 2 {
        assert("docker.io/"@ + name =~= docker + seq!['/'] + name);
        lemma_split_after_segment(docker, name);
    }
}

} // verus!
