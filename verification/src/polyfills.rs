//! Embedded Lua polyfill chunks injected during Lua 5.5 → 5.1 transpilation.

use vstd::prelude::*;
use vstd::string::StringExecFns;

verus! {

/// Bitwise operation emulation for pure Lua 5.1 (no native bit library).
///
/// Covers: `band`, `bor`, `bxor`, `bnot`, `lshift`, `rshift`.
/// Semantics match LuaJIT's `bit` library: 32-bit signed integer domain.
pub const BITWISE_FALLBACK: &'static str = r#"local _bU=0x100000000
local _bS=0x80000000
local function _bu(n) n=math.floor(n)%_bU if n<0 then n=n+_bU end return n end
local function _bs(n) n=_bu(n) if n>=_bS then n=n-_bU end return n end
local bit={}
function bit.band(a,b) a=_bu(a) b=_bu(b) local r=0 local m=1 while a>0 or b>0 do if a%2==1 and b%2==1 then r=r+m end a=math.floor(a/2) b=math.floor(b/2) m=m*2 end return _bs(r) end
function bit.bor(a,b) a=_bu(a) b=_bu(b) local r=0 local m=1 while a>0 or b>0 do if a%2==1 or b%2==1 then r=r+m end a=math.floor(a/2) b=math.floor(b/2) m=m*2 end return _bs(r) end
function bit.bxor(a,b) a=_bu(a) b=_bu(b) local r=0 local m=1 while a>0 or b>0 do if a%2~=b%2 then r=r+m end a=math.floor(a/2) b=math.floor(b/2) m=m*2 end return _bs(r) end
function bit.bnot(a) return _bs(0xFFFFFFFF-_bu(a)) end
function bit.lshift(a,n) n=n%32 a=_bu(a) for _=1,n do a=(a*2)%_bU end return _bs(a) end
function bit.rshift(a,n) n=n%32 a=_bu(a) for _=1,n do a=math.floor(a/2) end return _bs(a) end"#;

/// Runtime helper for `<close>` attribute semantics (none is needed yet).
pub const CLOSE_RUNTIME: &'static str = "";

/// Extensions to the `string` library present in 5.4/5.5 but absent in 5.1 (none yet).
pub const STRING_EXTENSIONS: &'static str = "";

/// Extensions to the `math` library present in 5.4/5.5 but absent in 5.1 (none yet).
pub const MATH_EXTENSIONS: &'static str = "";

/// Flags indicating which Lua 5.5 features are used in one source file.
#[derive(Debug, Clone, Copy, PartialEq, Eq, Structural)]
pub struct FeatureSet {
    /// Any of `&`, `|`, `~` (binary xor), `~` (unary not), `<<`, `>>`.
    pub bitwise_ops: bool,
    /// Any `local x <close>` declaration.
    pub close_attribute: bool,
    /// `//` integer division.
    pub integer_div: bool,
    pub string_extensions: bool,
    pub math_extensions: bool,
}

/// The feature set with no flag raised.
pub open spec fn spec_no_features() -> FeatureSet {
    FeatureSet {
        bitwise_ops: false,
        close_attribute: false,
        integer_div: false,
        string_extensions: false,
        math_extensions: false,
    }
}

impl Default for FeatureSet {
    fn default() -> (r: Self)
        ensures
            r == spec_no_features(),
    {
        FeatureSet {
            bitwise_ops: false,
            close_attribute: false,
            integer_div: false,
            string_extensions: false,
            math_extensions: false,
        }
    }
}

impl FeatureSet {
    /// Whether no flag is raised.
    pub open spec fn spec_is_empty(&self) -> bool {
        !self.bitwise_ops && !self.close_attribute && !self.integer_div
            && !self.string_extensions && !self.math_extensions
    }

    /// Returns `true` if no polyfills are needed.
    pub fn is_empty(&self) -> (r: bool)
        ensures
            r == self.spec_is_empty(),
    {
        !self.bitwise_ops && !self.close_attribute && !self.integer_div && !self.string_extensions
            && !self.math_extensions
    }
}

/// A feature set is empty exactly when it equals the default one.
pub proof fn lemma_empty_iff_default(fs: FeatureSet)
    ensures
        fs.spec_is_empty() <==> fs == spec_no_features(),
{
}

/// The chunks whose flag is raised, in the fixed order bitwise, close, string, math.
pub open spec fn selected_chunks(fs: FeatureSet) -> Seq<Seq<char>> {
    let a: Seq<Seq<char>> = if fs.bitwise_ops { seq![BITWISE_FALLBACK@] } else { seq![] };
    let b: Seq<Seq<char>> = if fs.close_attribute { seq![CLOSE_RUNTIME@] } else { seq![] };
    let c: Seq<Seq<char>> = if fs.string_extensions { seq![STRING_EXTENSIONS@] } else { seq![] };
    let d: Seq<Seq<char>> = if fs.math_extensions { seq![MATH_EXTENSIONS@] } else { seq![] };
    a + b + c + d
}

/// The non-empty elements of `parts`, in order.
pub open spec fn non_empty(parts: Seq<Seq<char>>) -> Seq<Seq<char>>
    decreases parts.len(),
{
    if parts.len() == 0 {
        seq![]
    } else if parts.last().len() == 0 {
        non_empty(parts.drop_last())
    } else {
        non_empty(parts.drop_last()).push(parts.last())
    }
}

/// `parts` joined with `sep` between consecutive elements.
pub open spec fn join(parts: Seq<Seq<char>>, sep: Seq<char>) -> Seq<char>
    decreases parts.len(),
{
    if parts.len() == 0 {
        seq![]
    } else if parts.len() == 1 {
        parts[0]
    } else {
        join(parts.drop_last(), sep) + sep + parts.last()
    }
}

/// The preamble text for a feature set: the non-empty chunks of the raised
/// flags joined by newlines.
pub open spec fn spec_polyfills_for(fs: FeatureSet) -> Seq<char> {
    join(non_empty(selected_chunks(fs)), seq!['\n'])
}

/// Concatenates the polyfill chunks required by `features` into a single Lua chunk.
///
/// Returns an empty string when no features are active.
pub fn polyfills_for(features: &FeatureSet) -> (r: String)
    ensures
        r@ == spec_polyfills_for(*features),
{
    let mut parts: Vec<&str> = Vec::new();
    if features.bitwise_ops {
        parts.push(BITWISE_FALLBACK);
    }
    if features.close_attribute {
        parts.push(CLOSE_RUNTIME);
    }
    if features.string_extensions {
        parts.push(STRING_EXTENSIONS);
    }
    if features.math_extensions {
        parts.push(MATH_EXTENSIONS);
    }
    let ghost chunks = parts@.map_values(|p: &str| p@);
    assert(chunks =~= selected_chunks(*features));
    let mut out = String::new();
    let mut kept: usize = 0;
    let mut i: usize = 0;
    while i < parts.len()
        invariant
            i <= parts.len(),
            chunks == parts@.map_values(|p: &str| p@),
            kept == non_empty(chunks.subrange(0, i as int)).len(),
            kept <= i,
            out@ == join(non_empty(chunks.subrange(0, i as int)), seq!['\n']),
        decreases parts.len() - i,
    {
        let ghost prev = chunks.subrange(0, i as int);
        assert(chunks.subrange(0, i + 1).drop_last() =~= prev);
        let p = parts[i];
        assert(chunks.subrange(0, i + 1).last() == p@);
        if !p.is_empty() {
            let ghost xs = non_empty(prev);
            assert(non_empty(chunks.subrange(0, i + 1)) == xs.push(p@));
            assert(xs.push(p@).drop_last() =~= xs);
            if kept > 0 {
                proof {
                    reveal_strlit("\n");
                }
                out.append("\n");
            }
            out.append(p);
            kept = kept + 1;
        } else {
            assert(non_empty(chunks.subrange(0, i + 1)) == non_empty(prev));
        }
        i += 1;
    }
    assert(chunks.subrange(0, parts.len() as int) =~= chunks);
    out
}

} // verus!
