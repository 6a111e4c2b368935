use vstd::prelude::*;

verus! {

/// The characters of a relative path: its components joined by `/`.
/// An empty component sequence renders as the empty string.
pub open spec fn rel_string(parts: Seq<Seq<char>>) -> Seq<char>
    decreases parts.len(),
{
    if parts.len() == 0 {
        Seq::<char>::empty()
    } else if parts.len() == 1 {
        parts[0]
    } else {
        rel_string(parts.drop_last()) + seq!['/'] + parts.last()
    }
}

/// A relative path placed under a root directory: `root/parts[0]/.../parts[n-1]`.
/// With no components this is the root itself.
pub open spec fn joined(root: Seq<char>, parts: Seq<Seq<char>>) -> Seq<char> {
    if parts.len() == 0 {
        root
    } else {
        root + seq!['/'] + rel_string(parts)
    }
}

/// Extending a component sequence by one part appends `/part` to its rendering,
/// except on the very first part.
pub proof fn lemma_rel_string_push(parts: Seq<Seq<char>>, part: Seq<char>)
    ensures
        parts.len() == 0 ==> rel_string(parts.push(part)) == part,
        parts.len() > 0 ==> rel_string(parts.push(part)) == rel_string(parts) + seq!['/'] + part,
{
    let extended = parts.push(part);
    if parts.len() == 0 {
        assert(rel_string(extended) == extended[0]);
    } else {
        assert(extended.drop_last() =~= parts);
        assert(extended.last() == part);
    }
}

/// A fresh vector holding the same strings.
pub fn clone_strings(v: &Vec<String>) -> (r: Vec<String>)
    ensures
        r@ == v@,
{
    let mut r: Vec<String> = Vec::new();
    let mut i: usize = 0;
    proof {
        assert(v@.take(0) =~= Seq::<String>::empty());
    }
    while i < v.len()
        invariant
            i <= v.len(),
            r@ == v@.take(i as int),
        decreases v.len() - i,
    {
        r.push(v[i].clone());
        proof {
            assert(v@.take(i as int + 1) =~= v@.take(i as int).push(v@[i as int]));
        }
        i = i + 1;
    }
    proof {
        assert(v@.take(v@.len() as int) =~= v@);
    }
    r
}

/// `root/name`.
pub fn join_under(root: &String, name: &String) -> (r: String)
    ensures
        r@ == joined(root@, seq![name@]),
{
    proof {
        reveal_strlit("/");
    }
    let r = root.clone().concat("/").concat(name.as_str());
    proof {
        assert(seq![name@].len() == 1);
        assert(rel_string(seq![name@]) == name@);
        assert(r@ =~= joined(root@, seq![name@]));
    }
    r
}

/// The relative path `parts` placed under `root`, as one string.
pub fn join_rel(root: &String, parts: &Vec<String>) -> (r: String)
    ensures
        r@ == joined(root@, parts.deep_view()),
{
    proof {
        reveal_strlit("/");
    }
    let ghost dv = parts.deep_view();
    let mut r = root.clone();
    let mut i: usize = 0;
    while i < parts.len()
        invariant
            i <= parts.len(),
            dv == parts.deep_view(),
            dv.len() == parts.len(),
            r@ == joined(root@, dv.take(i as int)),
            "/"@ == seq!['/'],
        decreases parts.len() - i,
    {
        r.append("/");
        r.append(parts[i].as_str());
        proof {
            assert(dv[i as int] == parts@[i as int]@);
            assert(dv.take(i as int + 1) =~= dv.take(i as int).push(dv[i as int]));
            lemma_rel_string_push(dv.take(i as int), dv[i as int]);
            assert(r@ =~= joined(root@, dv.take(i as int + 1)));
        }
        i = i + 1;
    }
    proof {
        assert(dv.take(dv.len() as int) =~= dv);
    }
    r
}

} // verus!
