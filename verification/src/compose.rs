//! What the build reads from a compose file's text: the first service name and the first
//! image reference.
use vstd::prelude::*;
use crate::cli::strip_suffix_all;
use crate::text::{
    chars_of, find, lemma_trim_identity, occurs_at, unicode_whitespace, find_first, has_prefix, has_suffix, lemma_find_first, slice, string_of,
    trim, trim_char, trim_char_exec, trim_chars, trim_end, trim_end_chars,
};

verus! {

/// The lines of `s`: the pieces between `\n` characters.
pub open spec fn split_lines(s: Seq<char>) -> Seq<Seq<char>>
    decreases s.len(),
{
    match find_first(s, seq!['\n']) {
        Some(i) => if 0 <= i < s.len() {
            seq![s.take(i)] + split_lines(s.skip(i + 1))
        } else {
            seq![s]
        },
        None => seq![s],
    }
}

/// The first service name among `lines`: the first line indented by two spaces and ending
/// in `:` after a `services:` line, with the colons taken off; `in_services` tells whether
/// a `services:` line was already seen.
pub open spec fn service_name_in(lines: Seq<Seq<char>>, in_services: bool) -> Option<Seq<char>>
    decreases lines.len(),
{
    if lines.len() == 0 {
        None
    } else {
        let line = lines[0];
        let trimmed = trim_end(line);
        if trim(trimmed) == "services:"@ {
            service_name_in(lines.drop_first(), true)
        } else if in_services && has_prefix(line, "  "@) && has_suffix(trimmed, ":"@) && strip_suffix_all(
            trim(trimmed),
            ":"@,
        ).len() > 0 {
            Some(strip_suffix_all(trim(trimmed), ":"@))
        } else {
            service_name_in(lines.drop_first(), in_services)
        }
    }
}

/// The image named by the first `image:` line among `lines`, without surrounding
/// whitespace and quotes.
pub open spec fn image_ref_in(lines: Seq<Seq<char>>) -> Option<Seq<char>>
    decreases lines.len(),
{
    if lines.len() == 0 {
        None
    } else {
        let t = trim(lines[0]);
        let img = trim_char(trim_char(trim(t.skip("image:"@.len() as int)), '"'), '\'');
        if has_prefix(t, "image:"@) && img.len() > 0 {
            Some(img)
        } else {
            image_ref_in(lines.drop_first())
        }
    }
}

/// The next line of `rest` and what follows it, as `split_lines` cuts them.
fn next_line(rest: &Vec<char>) -> (r: (Vec<char>, Option<Vec<char>>))
    ensures
        split_lines(rest@) == match r.1 {
            Some(tail) => seq![r.0@] + split_lines(tail@),
            None => seq![r.0@],
        },
        r.1 matches Some(tail) ==> tail@.len() < rest@.len(),
{
    let newline = vec!['\n'];
    assert(newline@ =~= seq!['\n']);
    match find(rest, &newline) {
        Some(i) => {
            proof {
                lemma_find_first(rest@, newline@);
            }
            assert(i < rest.len());
            let line = slice(rest, 0, i);
            let tail = slice(rest, i + 1, rest.len());
            assert(line@ =~= rest@.take(i as int));
            assert(tail@ =~= rest@.skip(i + 1));
            assert(split_lines(rest@) == seq![rest@.take(i as int)] + split_lines(
                rest@.skip(i + 1),
            ));
            (line, Some(tail))
        },
        None => {
            let line = slice(rest, 0, rest.len());
            assert(line@ =~= rest@);
            assert(split_lines(rest@) == seq![rest@]);
            (line, None)
        },
    }
}

/// The first service named under `services:` in compose text.
pub fn infer_service_name(compose: &str) -> (r: Option<String>)
    ensures
        match service_name_in(split_lines(compose@), false) {
            Some(name) => r is Some && r->0@ == name,
            None => r is None,
        },
{
    let services = chars_of("services:");
    let indent = chars_of("  ");
    let colon = chars_of(":");
    let mut in_services = false;
    let mut rest = chars_of(compose);
    loop
        invariant
            services@ == "services:"@,
            indent@ == "  "@,
            colon@ == ":"@,
            service_name_in(split_lines(rest@), in_services) == service_name_in(
                split_lines(compose@),
                false,
            ),
        decreases rest@.len(),
    {
        let (line, tail) = next_line(&rest);
        let ghost lines = split_lines(rest@);
        let ghost was_in = in_services;
        assert(lines[0] == line@);
        let trimmed = trim_end_chars(&line);
        let full = trim_chars(&trimmed);
        if crate::text::chars_eq(&full, &services) {
            in_services = true;
        } else if in_services && crate::text::starts_with(&line, &indent) && crate::text::ends_with(
            &trimmed,
            &colon,
        ) {
            let name = crate::cli::strip_suffix_all_exec(&full, &colon);
            if name.len() > 0 {
                return Some(string_of(&name));
            }
        }
        assert(service_name_in(lines, was_in) == service_name_in(lines.drop_first(), in_services));
        match tail {
            Some(t) => {
                assert(lines.drop_first() =~= split_lines(t@));
                rest = t;
            },
            None => {
                assert(lines.drop_first() =~= Seq::<Seq<char>>::empty());
                assert(service_name_in(lines.drop_first(), in_services) is None);
                return None;
            },
        }
    }
}

/// The first `image:` reference in compose text, without quotes.
pub fn infer_image_ref(compose: &str) -> (r: Option<String>)
    ensures
        match image_ref_in(split_lines(compose@)) {
            Some(img) => r is Some && r->0@ == img,
            None => r is None,
        },
{
    let prefix = chars_of("image:");
    let mut rest = chars_of(compose);
    loop
        invariant
            prefix@ == "image:"@,
            image_ref_in(split_lines(rest@)) == image_ref_in(split_lines(compose@)),
        decreases rest@.len(),
    {
        let (line, tail) = next_line(&rest);
        let ghost lines = split_lines(rest@);
        assert(lines[0] == line@);
        let t = trim_chars(&line);
        if crate::text::starts_with(&t, &prefix) {
            let skipped = slice(&t, prefix.len(), t.len());
            assert(skipped@ =~= t@.skip(prefix@.len() as int));
            let img = trim_char_exec(&trim_char_exec(&trim_chars(&skipped), '"'), '\'');
            if img.len() > 0 {
                return Some(string_of(&img));
            }
        }
        assert(image_ref_in(lines) == image_ref_in(lines.drop_first()));
        match tail {
            Some(tl) => {
                assert(lines.drop_first() =~= split_lines(tl@));
                rest = tl;
            },
            None => {
                assert(lines.drop_first() =~= Seq::<Seq<char>>::empty());
                assert(image_ref_in(lines.drop_first()) is None);
                return None;
            },
        }
    }
}

/// Taking every trailing `:` off leaves no trailing `:`.
proof fn lemma_strip_colons(t: Seq<char>)
    ensures
        strip_suffix_all(t, ":"@).len() > 0 ==> strip_suffix_all(t, ":"@).last() != ':',
        strip_suffix_all(t, ":"@).len() <= t.len(),
    decreases t.len(),
{
    reveal_strlit(":");
    if has_suffix(t, ":"@) {
        lemma_strip_colons(t.take(t.len() - 1));
    } else if t.len() > 0 {
        if t.last() == ':' {
            assert(t.subrange(t.len() - 1, t.len() as int) =~= ":"@);
        }
    }
}

/// A service name found in compose lines is not empty and does not end with `:`.
pub proof fn lemma_service_name_shape(lines: Seq<Seq<char>>, in_services: bool)
    ensures
        service_name_in(lines, in_services) matches Some(n) ==> n.len() > 0 && n.last() != ':',
    decreases lines.len(),
{
    if lines.len() > 0 {
        let trimmed = trim_end(lines[0]);
        lemma_strip_colons(trim(trimmed));
        lemma_service_name_shape(lines.drop_first(), true);
        lemma_service_name_shape(lines.drop_first(), in_services);
    }
}

/// A line without a newline, then a newline, is the first line of the text.
proof fn lemma_split_first_line(a: Seq<char>, b: Seq<char>)
    requires
        forall|j: int| 0 <= j < a.len() ==> a[j] != '\n',
    ensures
        split_lines(a + seq!['\n'] + b) == seq![a] + split_lines(b),
{
    let t = a + seq!['\n'] + b;
    let nl = seq!['\n'];
    lemma_find_first(t, nl);
    assert(t.subrange(a.len() as int, a.len() + 1int) =~= nl);
    assert(occurs_at(t, nl, a.len() as int));
    let k = find_first(t, nl)->0;
    if k < a.len() {
        assert(t.subrange(k, k + 1)[0] == t[k]);
        assert(t[k] == a[k]);
    }
    assert(k == a.len());
    assert(t.take(k) =~= a);
    assert(t.skip(k + 1) =~= b);
}

/// Compose text that opens with `services:` and then a service line `  NAME:` names that
/// service: for a name that is not empty, holds no `:` and no whitespace, and is not
/// `services` itself, the first service name is exactly `NAME`.
pub proof fn lemma_first_service_named(name: Seq<char>, rest: Seq<char>)
    requires
        name.len() > 0,
        name != "services"@,
        forall|j: int| 0 <= j < name.len() ==> name[j] != ':' && !unicode_whitespace(name[j]),
    ensures
        service_name_in(
            split_lines("services:"@ + seq!['\n'] + "  "@ + name + ":"@ + seq!['\n'] + rest),
            false,
        ) == Some(name),
{
    reveal_strlit("services:");
    reveal_strlit("  ");
    reveal_strlit(":");
    reveal_strlit("services");
    let l0 = "services:"@;
    let l1 = "  "@ + name + ":"@;
    let text = "services:"@ + seq!['\n'] + "  "@ + name + ":"@ + seq!['\n'] + rest;
    assert(text =~= l0 + seq!['\n'] + (l1 + seq!['\n'] + rest));
    assert forall|j: int| 0 <= j < l0.len() implies l0[j] != '\n' by {}
    lemma_split_first_line(l0, l1 + seq!['\n'] + rest);
    assert forall|j: int| 0 <= j < l1.len() implies l1[j] != '\n' by {
        if 2 <= j < 2 + name.len() {
            assert(l1[j] == name[j - 2]);
        }
    }
    lemma_split_first_line(l1, rest);
    let lines = seq![l0] + (seq![l1] + split_lines(rest));
    assert(split_lines(text) == lines);
    // The `services:` line.
    assert(trim_end(l0) == l0);
    lemma_trim_identity(l0);
    assert(lines[0] == l0);
    assert(lines.drop_first() =~= seq![l1] + split_lines(rest));
    // The service line.
    let lines1 = seq![l1] + split_lines(rest);
    assert(lines1[0] == l1);
    assert(trim_end(l1) == l1);
    let nc = name + ":"@;
    assert(l1.drop_first().drop_first() =~= nc);
    assert(l1[0] == ' ');
    assert(unicode_whitespace(' '));
    assert(crate::text::trim_start(l1) == crate::text::trim_start(l1.drop_first()));
    assert(l1.drop_first()[0] == ' ');
    assert(crate::text::trim_start(l1.drop_first()) == crate::text::trim_start(
        l1.drop_first().drop_first(),
    ));
    assert(crate::text::trim_start(l1) == crate::text::trim_start(nc));
    assert(crate::text::trim_start(nc) == nc);
    assert(trim_end(nc) == nc);
    assert(trim(l1) == nc);
    assert(nc != l0) by {
        if nc == l0 {
            assert(name =~= nc.take(nc.len() - 1));
            assert(name =~= "services"@);
        }
    }
    assert(has_prefix(l1, "  "@)) by {
        assert(l1.subrange(0, 2) =~= "  "@);
    }
    assert(has_suffix(l1, ":"@)) by {
        assert(l1.subrange(l1.len() - 1, l1.len() as int) =~= ":"@);
    }
    assert(has_suffix(nc, ":"@)) by {
        assert(nc.subrange(nc.len() - 1, nc.len() as int) =~= ":"@);
    }
    assert(nc.take(nc.len() - 1) =~= name);
    assert(!has_suffix(name, ":"@)) by {
        if has_suffix(name, ":"@) {
            assert(name.subrange(name.len() - 1, name.len() as int)[0] == name[name.len() - 1]);
        }
    }
    assert(strip_suffix_all(name, ":"@) == name);
    assert(strip_suffix_all(nc, ":"@) == name);
    assert(service_name_in(lines1, true) == Some(name));
    assert(trim(trim_end(l0)) == "services:"@);
    assert(service_name_in(lines, false) == service_name_in(lines.drop_first(), true));
}

/// Compose text whose first line is `image: IMAGE` names that image: for an image
/// reference that is not empty and holds no whitespace and no quotes, the image found is
/// exactly `IMAGE`.
pub proof fn lemma_first_image_named(image: Seq<char>, rest: Seq<char>)
    requires
        image.len() > 0,
        forall|j: int|
            0 <= j < image.len() ==> !unicode_whitespace(image[j]) && image[j] != '"' && image[j]
                != '\'',
    ensures
        image_ref_in(split_lines("image: "@ + image + seq!['\n'] + rest)) == Some(image),
{
    reveal_strlit("image: ");
    reveal_strlit("image:");
    let l0 = "image: "@ + image;
    assert forall|j: int| 0 <= j < l0.len() implies l0[j] != '\n' by {
        if j >= 7 {
            assert(l0[j] == image[j - 7]);
        }
    }
    assert("image: "@ + image + seq!['\n'] + rest =~= l0 + seq!['\n'] + rest);
    lemma_split_first_line(l0, rest);
    let lines = seq![l0] + split_lines(rest);
    assert(lines[0] == l0);
    lemma_trim_identity(l0);
    assert(trim(l0) == l0);
    assert(has_prefix(l0, "image:"@)) by {
        assert(l0.subrange(0, 6) =~= "image:"@);
    }
    let after = l0.skip(6);
    assert(after =~= seq![' '] + image);
    assert(after[0] == ' ');
    assert(unicode_whitespace(' '));
    assert(after.drop_first() =~= image);
    assert(crate::text::trim_start(after) == crate::text::trim_start(image));
    lemma_trim_identity(image);
    assert(crate::text::trim_start(image) == image);
    assert(trim(after) == image);
    assert(trim_char(image, '"') == image);
    assert(trim_char(image, '\'') == image);
}

} // verus!
