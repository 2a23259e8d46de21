//! Namespaces: the dotted paths under which values are written, such as
//! `builtins.fetchGit`, shown in error messages and primop names.

use vstd::prelude::*;

use crate::lex::copy_bytes;

verus! {

/// A namespace: a root name followed by the names pushed onto it.
#[derive(Debug)]
pub struct Namespace {
    parts: Vec<Vec<u8>>,
}

/// The names joined with dots.
pub open spec fn joined(parts: Seq<Seq<u8>>) -> Seq<u8>
    decreases parts.len(),
{
    if parts.len() <= 1 {
        if parts.len() == 1 {
            parts[0]
        } else {
            Seq::empty()
        }
    } else {
        joined(parts.drop_last()) + seq![46u8] + parts.last()
    }
}

/// Namespaces onto which a name was pushed, which can be taken off again.
pub trait PoppableNamespace: Sized {
    /// The names of the namespace, root first.
    spec fn spec_parts(&self) -> Seq<Seq<u8>>;

    /// Removes the last name pushed, giving back the namespace it was pushed
    /// onto.
    fn pop(self) -> (r: Self)
        requires
            self.spec_parts().len() >= 2,
        ensures
            r.spec_parts() == self.spec_parts().drop_last(),
    ;
}

impl Namespace {
    /// A namespace always holds at least its root name.
    #[verifier::type_invariant]
    spec fn holds_root(&self) -> bool {
        self.parts@.len() >= 1
    }

    /// The names of the namespace, root first.
    pub closed spec fn spec_names(&self) -> Seq<Seq<u8>> {
        crate::lex::keys_view(self.parts@)
    }

    /// The number of names, root included: at least one.
    pub fn len(&self) -> (r: usize)
        ensures
            r == self.spec_names().len(),
            r >= 1,
    {
        proof {
            use_type_invariant(self);
        }
        self.parts.len()
    }

    /// The namespace made of the name `root` alone.
    pub fn new(root: Vec<u8>) -> (r: Namespace)
        ensures
            r.spec_names() == seq![root@],
    {
        let mut parts: Vec<Vec<u8>> = Vec::new();
        parts.push(root);
        assert(crate::lex::keys_view(parts@) =~= seq![root@]);
        Namespace { parts }
    }

    /// The namespace with `name` pushed after the current names.
    pub fn push(self, name: &[u8]) -> (r: Namespace)
        ensures
            r.spec_names() == self.spec_names().push(name@),
            r.spec_names().len() >= 2,
            r.spec_names().drop_last() == self.spec_names(),
            joined(r.spec_names()) == joined(self.spec_names()) + seq![46u8] + name@,
    {
        proof {
            use_type_invariant(&self);
            lemma_push_pop(self.spec_names(), name@);
            lemma_display_push(self.spec_names(), name@);
        }
        let mut parts = self.parts;
        let ghost prev = crate::lex::keys_view(parts@);
        let mut owned: Vec<u8> = Vec::new();
        let mut i: usize = 0;
        while i < name.len()
            invariant
                0 <= i <= name@.len(),
                owned@ == name@.take(i as int),
            decreases name@.len() - i,
        {
            owned.push(name[i]);
            assert(name@.take(i + 1) =~= name@.take(i as int).push(name@[i as int]));
            i = i + 1;
        }
        assert(name@.take(i as int) =~= name@);
        parts.push(owned);
        assert(crate::lex::keys_view(parts@) =~= prev.push(name@));
        Namespace { parts }
    }

    /// The names joined with dots, as in `builtins.fetchGit`.
    pub fn display(&self) -> (r: Vec<u8>)
        ensures
            r@ == joined(self.spec_names()),
    {
        let ghost names = self.spec_names();
        let mut out: Vec<u8> = Vec::new();
        let mut i: usize = 0;
        assert(joined(names.take(0)) =~= Seq::<u8>::empty());
        while i < self.parts.len()
            invariant
                names == self.spec_names(),
                names == crate::lex::keys_view(self.parts@),
                0 <= i <= self.parts@.len(),
                out@ == joined(names.take(i as int)),
            decreases self.parts@.len() - i,
        {
            let ghost before = out@;
            if i > 0 {
                out.push(46u8);
            }
            let part = copy_bytes(&self.parts[i]);
            let mut j: usize = 0;
            let ghost mid = out@;
            while j < part.len()
                invariant
                    0 <= j <= part@.len(),
                    out@ == mid + part@.take(j as int),
                decreases part@.len() - j,
            {
                out.push(part[j]);
                assert(part@.take(j + 1) =~= part@.take(j as int).push(part@[j as int]));
                j = j + 1;
            }
            proof {
                assert(part@.take(j as int) =~= part@);
                let t = names.take(i + 1);
                assert(t.drop_last() =~= names.take(i as int));
                assert(t.last() == part@);
                if i > 0 {
                    assert(out@ =~= joined(t));
                } else {
                    assert(t =~= seq![part@]);
                    assert(out@ =~= joined(t));
                }
            }
            i = i + 1;
        }
        assert(names.take(i as int) =~= names);
        out
    }
}

impl Clone for Namespace {
    /// A namespace with the same names.
    fn clone(&self) -> (r: Namespace)
        ensures
            r.spec_names() == self.spec_names(),
    {
        proof {
            use_type_invariant(self);
        }
        let mut parts: Vec<Vec<u8>> = Vec::new();
        let mut i: usize = 0;
        while i < self.parts.len()
            invariant
                0 <= i <= self.parts@.len(),
                crate::lex::keys_view(parts@) == crate::lex::keys_view(self.parts@).take(i as int),
            decreases self.parts@.len() - i,
        {
            let ghost prev = parts@;
            let part = copy_bytes(&self.parts[i]);
            assert(part@ == self.parts@[i as int]@);
            parts.push(part);
            assert(crate::lex::keys_view(parts@) =~= crate::lex::keys_view(prev).push(part@));
            assert(crate::lex::keys_view(self.parts@).take(i + 1) =~= crate::lex::keys_view(self.parts@).take(
                i as int,
            ).push(self.parts@[i as int]@));
            i = i + 1;
        }
        assert(crate::lex::keys_view(self.parts@).take(i as int) =~= crate::lex::keys_view(self.parts@));
        Namespace { parts }
    }
}

impl PoppableNamespace for Namespace {
    open spec fn spec_parts(&self) -> Seq<Seq<u8>> {
        self.spec_names()
    }

    fn pop(self) -> (r: Namespace) {
        let mut parts = self.parts;
        let ghost prev = crate::lex::keys_view(parts@);
        parts.pop();
        assert(crate::lex::keys_view(parts@) =~= prev.drop_last());
        Namespace { parts }
    }
}

/// Pushing a name onto a namespace and popping it off again gives back the
/// namespace.
pub proof fn lemma_push_pop(names: Seq<Seq<u8>>, name: Seq<u8>)
    ensures
        names.push(name).drop_last() == names,
{
    assert(names.push(name).drop_last() =~= names);
}

/// The dotted form of a namespace with a name pushed onto it is the dotted
/// form of the namespace, a dot, and the name.
pub proof fn lemma_display_push(names: Seq<Seq<u8>>, name: Seq<u8>)
    requires
        names.len() >= 1,
    ensures
        joined(names.push(name)) == joined(names) + seq![46u8] + name,
{
    assert(names.push(name).drop_last() =~= names);
}

} // verus!
