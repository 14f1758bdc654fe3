//! The parts of the `shader` attribute that only compute: the name of the
//! struct generated for a shader function, and how its parameters are
//! passed.
use vstd::prelude::*;
use vstd::string::*;

verus! {

/// The characters `std` gives for `c` in upper case.
pub uninterp spec fn uppercase_of(c: char) -> Seq<char>;

/// `char::to_uppercase`, collected: a lower-case ASCII letter becomes its
/// capital; other ASCII characters, which have no upper-case mapping, stay
/// as they are. Of other characters only that the result is `std`'s fixed
/// mapping is stated.
#[verifier::external_body]
fn to_uppercase(c: char) -> (r: String)
    ensures
        r@ == uppercase_of(c),
        'a' <= c <= 'z' ==> r@ == seq![((c as u32) - 32) as char],
        (c as u32) < 128 && !('a' <= c <= 'z') ==> r@ == seq![c],
{
    c.to_uppercase().collect()
}

/// The struct name for the first `k` characters of a snake-case name, and
/// whether the next character starts a word: underscores are dropped and
/// the first character of each word is put in upper case.
pub open spec fn pascal_prefix(s: Seq<char>, k: nat) -> (Seq<char>, bool)
    decreases k,
{
    if k == 0 || k > s.len() {
        (Seq::empty(), true)
    } else {
        let (out, start) = pascal_prefix(s, (k - 1) as nat);
        let c = s[k - 1];
        if c == '_' {
            (out, true)
        } else if start {
            (out + uppercase_of(c), false)
        } else {
            (out.push(c), false)
        }
    }
}

/// The Pascal-case name of the struct generated for the shader function
/// `ident`: `my_shader` gives `MyShader`.
pub fn pascal_case(ident: &str) -> (r: String)
    ensures
        r@ == pascal_prefix(ident@, ident@.len()).0,
{
    let n = ident.unicode_len();
    let mut out = String::new();
    let mut start = true;
    let mut i: usize = 0;
    while i < n
        invariant
            n == ident@.len(),
            i <= n,
            pascal_prefix(ident@, i as nat) == (out@, start),
        decreases n - i,
    {
        let c = ident.get_char(i);
        if c == '_' {
            start = true;
        } else if start {
            let u = to_uppercase(c);
            out.append(u.as_str());
            start = false;
        } else {
            let one = ident.substring_char(i, i + 1);
            proof {
                assert(one@ =~= seq![c]);
            }
            out.append(one);
            start = false;
        }
        i = i + 1;
    }
    out
}

/// What the `shader` attribute learns of one parameter of the function it
/// is put on.
pub struct ShaderParam {
    /// The parameter carries a `binding` attribute.
    pub binding_attr: bool,
    /// That attribute names a buffer binding type.
    pub binding_typed: bool,
    /// The parameter carries a `private` attribute.
    pub private_attr: bool,
    /// The parameter's type is `SharedData<..>`.
    pub shared_type: bool,
}

/// Which parameters, by index in order, become bound buffers, shared
/// variables, private variables, and plain extra arguments.
pub struct ParamKinds {
    pub bindings: Vec<usize>,
    pub shared: Vec<usize>,
    pub private: Vec<usize>,
    pub extra: Vec<usize>,
}

pub open spec fn is_binding(p: ShaderParam) -> bool {
    p.binding_attr && p.binding_typed
}

pub open spec fn is_extra(p: ShaderParam) -> bool {
    !p.binding_attr && !p.private_attr && !p.shared_type
}

/// The indices `i < k` of `params` whose parameter satisfies `pred`, in order.
pub open spec fn indices_where(params: Seq<ShaderParam>, pred: spec_fn(ShaderParam) -> bool, k: nat) -> Seq<
    usize,
>
    decreases k,
{
    if k == 0 || k > params.len() {
        Seq::empty()
    } else if pred(params[k - 1]) {
        indices_where(params, pred, (k - 1) as nat).push((k - 1) as usize)
    } else {
        indices_where(params, pred, (k - 1) as nat)
    }
}

/// Sorts the parameters of a shader function: a parameter with a typed
/// `binding` attribute is a bound buffer; one of type `SharedData` a shared
/// variable; one with a `private` attribute a private variable; and one with
/// none of these (no `binding` attribute at all) a plain extra argument.
pub fn classify_params(params: &Vec<ShaderParam>) -> (r: ParamKinds)
    ensures
        r.bindings@ == indices_where(params@, |p: ShaderParam| is_binding(p), params@.len()),
        r.shared@ == indices_where(params@, |p: ShaderParam| p.shared_type, params@.len()),
        r.private@ == indices_where(params@, |p: ShaderParam| p.private_attr, params@.len()),
        r.extra@ == indices_where(params@, |p: ShaderParam| is_extra(p), params@.len()),
{
    let mut k = ParamKinds { bindings: Vec::new(), shared: Vec::new(), private: Vec::new(), extra: Vec::new() };
    let n = params.len();
    let mut i: usize = 0;
    while i < n
        invariant
            n == params@.len(),
            i <= n,
            k.bindings@ == indices_where(params@, |p: ShaderParam| is_binding(p), i as nat),
            k.shared@ == indices_where(params@, |p: ShaderParam| p.shared_type, i as nat),
            k.private@ == indices_where(params@, |p: ShaderParam| p.private_attr, i as nat),
            k.extra@ == indices_where(params@, |p: ShaderParam| is_extra(p), i as nat),
        decreases n - i,
    {
        let p = &params[i];
        if p.binding_attr && p.binding_typed {
            k.bindings.push(i);
        }
        if p.shared_type {
            k.shared.push(i);
        }
        if p.private_attr {
            k.private.push(i);
        }
        if !p.binding_attr && !p.private_attr && !p.shared_type {
            k.extra.push(i);
        }
        i = i + 1;
    }
    k
}

} // verus!
