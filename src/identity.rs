//! Namespaced resource identifiers (`namespace:path`) and their validated
//! parts, held as ASCII bytes.
use vstd::prelude::*;
use vstd::slice::slice_subrange;
use vstd::string::{is_ascii_spec_bytes, StringSliceAdditionalSpecFns};

verus! {

/// Namespace given to identifiers written without one.
pub const DEFAULT_NAMESPACE: &'static str = "bevycraft";

/// The byte `:` that separates a namespace from a path.
pub const COLON: u8 = 0x3a;

/// A namespace byte: an ASCII letter (`0x41..=0x5a`, `0x61..=0x7a`) or digit
/// (`0x30..=0x39`), `-` (`0x2d`) or `_` (`0x5f`).
pub open spec fn is_namespace_byte(b: u8) -> bool {
    (0x61u8 <= b && b <= 0x7au8) || (0x41u8 <= b && b <= 0x5au8) || (0x30u8 <= b && b <= 0x39u8) || b == 0x2du8
        || b == 0x5fu8
}

/// A path byte: a namespace byte, `.` (`0x2e`) or `/` (`0x2f`).
pub open spec fn is_path_byte(b: u8) -> bool {
    is_namespace_byte(b) || b == 0x2eu8 || b == 0x2fu8
}

pub open spec fn valid_namespace_bytes(s: Seq<u8>) -> bool {
    forall|i: int| 0 <= i < s.len() ==> is_namespace_byte(#[trigger] s[i])
}

pub open spec fn valid_path_bytes(s: Seq<u8>) -> bool {
    forall|i: int| 0 <= i < s.len() ==> is_path_byte(#[trigger] s[i])
}

/// Whether `k` is the position of the first `:` in `s`.
pub open spec fn first_colon_at(s: Seq<u8>, k: int) -> bool {
    &&& 0 <= k < s.len()
    &&& s[k] == COLON
    &&& forall|i: int| 0 <= i < k ==> #[trigger] s[i] != COLON
}

pub open spec fn has_colon(s: Seq<u8>) -> bool {
    exists|i: int| 0 <= i < s.len() && #[trigger] s[i] == COLON
}

/// The bytes of the default namespace, `bevycraft`.
pub open spec fn default_namespace_bytes() -> Seq<u8> {
    seq![0x62u8, 0x65, 0x76, 0x79, 0x63, 0x72, 0x61, 0x66, 0x74]
}

/// Whether a location can be parsed: before its first `:` a valid namespace
/// and after it a valid path; with no `:`, a valid path.
pub open spec fn valid_location(s: Seq<u8>) -> bool {
    &&& forall|k: int|
        first_colon_at(s, k) ==> valid_namespace_bytes(s.subrange(0, k)) && valid_path_bytes(
            s.subrange(k + 1, s.len() as int),
        )
    &&& !has_colon(s) ==> valid_path_bytes(s)
}

proof fn lemma_default_namespace()
    ensures
        DEFAULT_NAMESPACE.spec_bytes() == default_namespace_bytes(),
        valid_namespace_bytes(default_namespace_bytes()),
{
    reveal_strlit("bevycraft");
    broadcast use is_ascii_spec_bytes;

    assert(vstd::string::is_ascii(DEFAULT_NAMESPACE));
    assert(DEFAULT_NAMESPACE.spec_bytes() =~= default_namespace_bytes());
}

/// Appends `src[lo..hi]` to `dst`.
fn push_range(dst: &mut Vec<u8>, src: &[u8], lo: usize, hi: usize)
    requires
        lo <= hi <= src@.len(),
    ensures
        final(dst)@ == old(dst)@ + src@.subrange(lo as int, hi as int),
{
    let mut i = lo;
    while i < hi
        invariant
            lo <= i <= hi <= src@.len(),
            dst@ == old(dst)@ + src@.subrange(lo as int, i as int),
        decreases hi - i,
    {
        dst.push(src[i]);
        i = i + 1;
        proof {
            assert(dst@ =~= old(dst)@ + src@.subrange(lo as int, i as int));
        }
    }
}

/// Whether every byte of `bytes` is a namespace byte (`path` false) or a path
/// byte (`path` true).
fn all_valid(bytes: &[u8], path: bool) -> (r: bool)
    ensures
        r == if path {
            valid_path_bytes(bytes@)
        } else {
            valid_namespace_bytes(bytes@)
        },
{
    let mut i: usize = 0;
    while i < bytes.len()
        invariant
            i <= bytes@.len(),
            forall|j: int|
                0 <= j < i ==> if path {
                    is_path_byte(#[trigger] bytes@[j])
                } else {
                    is_namespace_byte(bytes@[j])
                },
        decreases bytes@.len() - i,
    {
        let b = bytes[i];
        let ok = if path {
            Path::valid_byte(b)
        } else {
            Namespace::valid_byte(b)
        };
        if !ok {
            return false;
        }
        i = i + 1;
    }
    true
}

/// A validated namespace.
#[derive(Clone, Debug, PartialEq, Eq, Hash, PartialOrd, Ord, Default)]
pub struct Namespace(Vec<u8>);

impl View for Namespace {
    type V = Seq<u8>;

    closed spec fn view(&self) -> Seq<u8> {
        self.0@
    }
}

impl Namespace {
    /// The namespace `namespace`, which must hold namespace bytes only.
    pub fn new_static(namespace: &'static str) -> (r: Self)
        requires
            valid_namespace_bytes(namespace.spec_bytes()),
        ensures
            r@ == namespace.spec_bytes(),
    {
        Self::new(namespace)
    }

    /// The namespace `namespace`, which must hold namespace bytes only.
    pub fn new(namespace: &str) -> (r: Self)
        requires
            valid_namespace_bytes(namespace.spec_bytes()),
        ensures
            r@ == namespace.spec_bytes(),
    {
        Namespace(vstd::slice::slice_to_vec(namespace.as_bytes()))
    }

    /// Whether every byte of `s` is a namespace byte.
    pub fn valid_namespace(s: &str) -> (r: bool)
        ensures
            r == valid_namespace_bytes(s.spec_bytes()),
    {
        all_valid(s.as_bytes(), false)
    }

    /// Whether `byte` is an ASCII letter or digit, `-` or `_`.
    pub fn valid_byte(byte: u8) -> (r: bool)
        ensures
            r == is_namespace_byte(byte),
    {
        (0x61u8 <= byte && byte <= 0x7au8) || (0x41u8 <= byte && byte <= 0x5au8) || (0x30u8 <= byte && byte
            <= 0x39u8) || byte == 0x2du8 || byte == 0x5fu8
    }

    /// The namespace's bytes.
    pub fn as_bytes(&self) -> (r: &[u8])
        ensures
            r@ == self@,
    {
        self.0.as_slice()
    }
}

/// A validated path.
#[derive(Clone, Debug, PartialEq, Eq, Hash, PartialOrd, Ord, Default)]
pub struct Path(Vec<u8>);

impl View for Path {
    type V = Seq<u8>;

    closed spec fn view(&self) -> Seq<u8> {
        self.0@
    }
}

impl Path {
    /// The path `path`, which must hold path bytes only.
    pub fn new_static(path: &'static str) -> (r: Self)
        requires
            valid_path_bytes(path.spec_bytes()),
        ensures
            r@ == path.spec_bytes(),
    {
        Self::new(path)
    }

    /// The path `path`, which must hold path bytes only.
    pub fn new(path: &str) -> (r: Self)
        requires
            valid_path_bytes(path.spec_bytes()),
        ensures
            r@ == path.spec_bytes(),
    {
        Path(vstd::slice::slice_to_vec(path.as_bytes()))
    }

    /// Puts `prefix` in front of the path.
    pub fn prefix(&mut self, prefix: &str) -> (r: &Self)
        requires
            valid_path_bytes(prefix.spec_bytes()),
        ensures
            final(self)@ == prefix.spec_bytes() + old(self)@,
            r@ == final(self)@,
    {
        let bytes = prefix.as_bytes();
        let mut joined: Vec<u8> = Vec::new();
        push_range(&mut joined, bytes, 0, bytes.len());
        let own = self.0.as_slice();
        push_range(&mut joined, own, 0, own.len());
        proof {
            assert(bytes@.subrange(0, bytes@.len() as int) =~= bytes@);
            assert(own@.subrange(0, own@.len() as int) =~= own@);
        }
        self.0 = joined;
        self
    }

    /// Puts `suffix` after the path.
    pub fn suffix(&mut self, suffix: &str) -> (r: &Self)
        requires
            valid_path_bytes(suffix.spec_bytes()),
        ensures
            final(self)@ == old(self)@ + suffix.spec_bytes(),
            r@ == final(self)@,
    {
        let bytes = suffix.as_bytes();
        push_range(&mut self.0, bytes, 0, bytes.len());
        proof {
            assert(bytes@.subrange(0, bytes@.len() as int) =~= bytes@);
        }
        self
    }

    /// A copy of the path with `prefix` in front.
    pub fn clone_prefixed(&self, prefix: &str) -> (r: Self)
        requires
            valid_path_bytes(prefix.spec_bytes()),
        ensures
            r@ == prefix.spec_bytes() + self@,
    {
        let bytes = prefix.as_bytes();
        let mut joined: Vec<u8> = Vec::new();
        push_range(&mut joined, bytes, 0, bytes.len());
        let own = self.0.as_slice();
        push_range(&mut joined, own, 0, own.len());
        proof {
            assert(bytes@.subrange(0, bytes@.len() as int) =~= bytes@);
            assert(own@.subrange(0, own@.len() as int) =~= own@);
        }
        Path(joined)
    }

    /// A copy of the path with `suffix` after it.
    pub fn clone_suffixed(&self, suffix: &str) -> (r: Self)
        requires
            valid_path_bytes(suffix.spec_bytes()),
        ensures
            r@ == self@ + suffix.spec_bytes(),
    {
        let bytes = suffix.as_bytes();
        let own = self.0.as_slice();
        let mut joined: Vec<u8> = Vec::new();
        push_range(&mut joined, own, 0, own.len());
        push_range(&mut joined, bytes, 0, bytes.len());
        proof {
            assert(bytes@.subrange(0, bytes@.len() as int) =~= bytes@);
            assert(own@.subrange(0, own@.len() as int) =~= own@);
        }
        Path(joined)
    }

    /// Whether every byte of `s` is a path byte.
    pub fn valid_path(s: &str) -> (r: bool)
        ensures
            r == valid_path_bytes(s.spec_bytes()),
    {
        all_valid(s.as_bytes(), true)
    }

    /// Whether `byte` is an ASCII letter or digit, `-`, `_`, `.` or `/`.
    pub fn valid_byte(byte: u8) -> (r: bool)
        ensures
            r == is_path_byte(byte),
    {
        Namespace::valid_byte(byte) || byte == 0x2eu8 || byte == 0x2fu8
    }

    /// The path's bytes.
    pub fn as_bytes(&self) -> (r: &[u8])
        ensures
            r@ == self@,
    {
        self.0.as_slice()
    }
}

/// Access to the two parts of a namespaced identifier.
pub trait NamespacedIdentifier {
    spec fn namespace_spec(&self) -> Seq<u8>;

    spec fn path_spec(&self) -> Seq<u8>;

    /// The namespace's bytes.
    fn namespace(&self) -> (r: &[u8])
        ensures
            r@ == self.namespace_spec(),
    ;

    /// The path's bytes.
    fn path(&self) -> (r: &[u8])
        ensures
            r@ == self.path_spec(),
    ;
}

/// A resource identifier: a namespace and a path, stored back to back.
#[derive(Debug, PartialEq, Eq, Hash)]
pub struct ResourceId {
    ns_len: usize,
    vec: Vec<u8>,
}

impl ResourceId {
    #[verifier::type_invariant]
    closed spec fn wf(&self) -> bool {
        self.ns_len <= self.vec.len()
    }

    pub closed spec fn bytes(&self) -> Seq<u8> {
        self.vec@
    }

    /// The identifier of `namespace[ns_lo..ns_hi]` and `path[path_lo..path_hi]`.
    fn from_parts(
        namespace: &[u8],
        ns_lo: usize,
        ns_hi: usize,
        path: &[u8],
        path_lo: usize,
        path_hi: usize,
    ) -> (r: Self)
        requires
            ns_lo <= ns_hi <= namespace@.len(),
            path_lo <= path_hi <= path@.len(),
        ensures
            r.namespace_spec() == namespace@.subrange(ns_lo as int, ns_hi as int),
            r.path_spec() == path@.subrange(path_lo as int, path_hi as int),
    {
        let mut vec: Vec<u8> = Vec::new();
        push_range(&mut vec, namespace, ns_lo, ns_hi);
        let ns_len = vec.len();
        push_range(&mut vec, path, path_lo, path_hi);
        let r = ResourceId { ns_len, vec };
        proof {
            assert(r.namespace_spec() =~= namespace@.subrange(ns_lo as int, ns_hi as int));
            assert(r.path_spec() =~= path@.subrange(path_lo as int, path_hi as int));
        }
        r
    }

    /// The identifier `namespace:path`; both parts must be valid.
    fn new(namespace: &str, path: &str) -> (r: Self)
        requires
            valid_namespace_bytes(namespace.spec_bytes()),
            valid_path_bytes(path.spec_bytes()),
        ensures
            r.namespace_spec() == namespace.spec_bytes(),
            r.path_spec() == path.spec_bytes(),
    {
        let ns = namespace.as_bytes();
        let p = path.as_bytes();
        proof {
            assert(ns@.subrange(0, ns@.len() as int) =~= ns@);
            assert(p@.subrange(0, p@.len() as int) =~= p@);
        }
        Self::from_parts(ns, 0, ns.len(), p, 0, p.len())
    }

    /// The identifier of `path` in the default namespace; `path` must be valid.
    pub fn default_namespace(path: &str) -> (r: Self)
        requires
            valid_path_bytes(path.spec_bytes()),
        ensures
            r.namespace_spec() == default_namespace_bytes(),
            r.path_spec() == path.spec_bytes(),
    {
        proof {
            lemma_default_namespace();
        }
        Self::new(DEFAULT_NAMESPACE, path)
    }

    /// The identifier `namespace:path`; both parts must be valid.
    pub fn custom_namespace(namespace: &str, path: &str) -> (r: Self)
        requires
            valid_namespace_bytes(namespace.spec_bytes()),
            valid_path_bytes(path.spec_bytes()),
        ensures
            r.namespace_spec() == namespace.spec_bytes(),
            r.path_spec() == path.spec_bytes(),
    {
        Self::new(namespace, path)
    }

    /// The identifier written `namespace:path`, split at the first `:`, or
    /// a bare `path` in the default namespace.
    pub fn parse(location: &str) -> (r: Self)
        requires
            valid_location(location.spec_bytes()),
        ensures
            forall|k: int|
                first_colon_at(location.spec_bytes(), k) ==> r.namespace_spec()
                    == location.spec_bytes().subrange(0, k) && r.path_spec()
                    == location.spec_bytes().subrange(k + 1, location.spec_bytes().len() as int),
            !has_colon(location.spec_bytes()) ==> r.namespace_spec() == default_namespace_bytes()
                && r.path_spec() == location.spec_bytes(),
    {
        let bytes = location.as_bytes();
        let mut k: usize = 0;
        while k < bytes.len()
            invariant
                bytes@ == location.spec_bytes(),
                valid_location(bytes@),
                k <= bytes@.len(),
                forall|i: int| 0 <= i < k ==> #[trigger] bytes@[i] != COLON,
            decreases bytes@.len() - k,
        {
            if bytes[k] == COLON {
                let r = Self::from_parts(bytes, 0, k, bytes, k + 1, bytes.len());
                proof {
                    assert(has_colon(bytes@)) by {
                        assert(bytes@[k as int] == COLON);
                    }
                    assert forall|j: int| first_colon_at(bytes@, j) implies r.namespace_spec()
                        == bytes@.subrange(0, j) && r.path_spec() == bytes@.subrange(
                        j + 1,
                        bytes@.len() as int,
                    ) by {
                        if j < k {
                            assert(bytes@[j] != COLON);
                        } else if j > k {
                            assert(bytes@[k as int] != COLON);
                        }
                    }
                }
                return r;
            }
            k = k + 1;
        }
        proof {
            assert(!has_colon(bytes@));
            assert forall|j: int| !first_colon_at(bytes@, j) by {
                if 0 <= j < bytes@.len() {
                    assert(bytes@[j] != COLON);
                }
            }
        }
        Self::default_namespace(location)
    }

    /// The namespace's bytes followed by the path's.
    pub fn as_slice(&self) -> (r: &[u8])
        ensures
            r@ == self.bytes(),
    {
        self.vec.as_slice()
    }
}

impl Clone for ResourceId {
    fn clone(&self) -> (r: Self)
        ensures
            r.bytes() == self.bytes(),
            r.namespace_spec() == self.namespace_spec(),
            r.path_spec() == self.path_spec(),
    {
        proof {
            use_type_invariant(self);
        }
        let ns = self.vec.as_slice();
        let mut vec: Vec<u8> = Vec::new();
        push_range(&mut vec, ns, 0, ns.len());
        proof {
            assert(ns@.subrange(0, ns@.len() as int) =~= ns@);
        }
        ResourceId { ns_len: self.ns_len, vec }
    }
}

impl NamespacedIdentifier for ResourceId {
    closed spec fn namespace_spec(&self) -> Seq<u8> {
        self.vec@.subrange(0, self.ns_len as int)
    }

    closed spec fn path_spec(&self) -> Seq<u8> {
        self.vec@.subrange(self.ns_len as int, self.vec@.len() as int)
    }

    fn namespace(&self) -> (r: &[u8]) {
        proof {
            use_type_invariant(self);
        }
        slice_subrange(self.vec.as_slice(), 0, self.ns_len)
    }

    fn path(&self) -> (r: &[u8]) {
        proof {
            use_type_invariant(self);
        }
        slice_subrange(self.vec.as_slice(), self.ns_len, self.vec.len())
    }
}

} // verus!
