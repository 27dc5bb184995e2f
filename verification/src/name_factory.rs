//! Fresh names for the arguments of circuits.
use vstd::prelude::*;
use vstd::string::StringExecFns;
use crate::ast::Expr;
use crate::text::{decimal, decimal_string};
use crate::types::TypeName;

verus! {

/// The suffix of a fresh name for a value of type `t`.
pub open spec fn name_postfix(t: TypeName) -> Seq<char> {
    match t {
        TypeName::Key => "key"@,
        TypeName::Cipher => "cipher"@,
        TypeName::Randomness => "rnd"@,
        _ => "plain"@,
    }
}

/// The fresh name `{base}{count}_{postfix}`.
pub open spec fn fresh_name(base: Seq<char>, count: u64, t: TypeName) -> Seq<char> {
    base + decimal(count as nat) + "_"@ + name_postfix(t)
}

/// Names made from different counts differ, whatever their types: each name
/// a factory gives out while counting on is fresh.
pub proof fn law_fresh_names_differ(base: Seq<char>, c1: u64, c2: u64, t1: TypeName, t2: TypeName)
    requires
        c1 != c2,
    ensures
        fresh_name(base, c1, t1) != fresh_name(base, c2, t2),
{
    if fresh_name(base, c1, t1) == fresh_name(base, c2, t2) {
        reveal_strlit("_");
        assert(fresh_name(base, c1, t1) =~= base + decimal(c1 as nat) + seq!['_'] + name_postfix(t1));
        assert(fresh_name(base, c2, t2) =~= base + decimal(c2 as nat) + seq!['_'] + name_postfix(t2));
        crate::text::lemma_numeral_before_separator(base, c1 as nat, c2 as nat, '_', name_postfix(t1), name_postfix(t2));
    }
}

/// Generates fresh, unused names with a given prefix.
pub struct BaseNameFactory {
    pub base_name: String,
    pub count: u64,
}

impl BaseNameFactory {
    pub fn new(base_name: String) -> (r: BaseNameFactory)
        ensures
            r.base_name == base_name,
            r.count == 0,
    {
        BaseNameFactory { base_name, count: 0 }
    }

    /// A fresh name for a value of type `t` (see `fresh_name`); with `inc`,
    /// the counter moves on.
    pub fn get_new_name(&mut self, t: &TypeName, inc: bool) -> (r: String)
        requires
            inc ==> old(self).count < u64::MAX,
        ensures
            r@ == fresh_name(old(self).base_name@, old(self).count, *t),
            final(self).base_name == old(self).base_name,
            final(self).count == if inc { (old(self).count + 1) as u64 } else { old(self).count },
    {
        let postfix = match t {
            TypeName::Key => "key",
            TypeName::Cipher => "cipher",
            TypeName::Randomness => "rnd",
            _ => "plain",
        };
        let mut name = self.base_name.clone();
        let d = decimal_string(self.count);
        name.append(d.as_str());
        name.append("_");
        name.append(postfix);
        if inc {
            self.count = self.count + 1;
        }
        name
    }
}

/// The role of a circuit argument.
#[derive(PartialEq, Eq, Structural, Clone, Copy, Debug)]
pub enum HybridArgType {
    PrivCircuitVal,
    PubCircuitArg,
    PubContractVal,
    TmpCircuitVal,
}

/// The number of 256-bit words of ciphertexts, keys and randomness.
#[derive(PartialEq, Eq, Structural, Clone, Copy, Debug)]
pub struct CryptoSizes {
    pub cipher_len: u64,
    pub key_len: u64,
    pub randomness_len: u64,
}

/// The number of 256-bit words a value of type `t` takes.
pub open spec fn size_in_uints(t: TypeName, sizes: CryptoSizes) -> u64 {
    match t {
        TypeName::Cipher => sizes.cipher_len,
        TypeName::Key => sizes.key_len,
        TypeName::Randomness => sizes.randomness_len,
        _ => 1,
    }
}

/// An identifier of a circuit argument.
pub struct HybridArgumentIdf {
    pub name: String,
    pub t: TypeName,
    pub arg_type: HybridArgType,
    /// The private expression the argument stands for.
    pub corresponding_priv_expression: Option<Expr>,
}

/// Generates fresh circuit arguments of one role.
pub struct NameFactory {
    pub base_name_factory: BaseNameFactory,
    pub arg_type: HybridArgType,
    /// The total size of the arguments generated, in 256-bit words.
    pub size: u64,
    /// The names of the arguments generated, in order.
    pub idfs: Vec<String>,
    pub sizes: CryptoSizes,
}

impl NameFactory {
    pub fn new(base_name: String, arg_type: HybridArgType, sizes: CryptoSizes) -> (r: NameFactory)
        ensures
            r.base_name_factory.base_name == base_name,
            r.base_name_factory.count == 0,
            r.arg_type == arg_type,
            r.size == 0,
            r.idfs@.len() == 0,
            r.sizes == sizes,
    {
        NameFactory { base_name_factory: BaseNameFactory::new(base_name), arg_type, size: 0, idfs: Vec::new(), sizes }
    }

    fn type_size(&self, t: &TypeName) -> (r: u64)
        ensures
            r == size_in_uints(*t, self.sizes),
            *t is Cipher ==> r == self.sizes.cipher_len,
            *t is Key ==> r == self.sizes.key_len,
            *t is Randomness ==> r == self.sizes.randomness_len,
            !(*t is Cipher || *t is Key || *t is Randomness) ==> r == 1,
    {
        match t {
            TypeName::Cipher => self.sizes.cipher_len,
            TypeName::Key => self.sizes.key_len,
            TypeName::Randomness => self.sizes.randomness_len,
            _ => 1,
        }
    }

    /// A fresh argument of type `t` for `priv_expr`, with a fresh name (see
    /// `fresh_name`); the size grows by the size of `t` and the name is recorded.
    pub fn get_new_idf(&mut self, t: &TypeName, priv_expr: Option<Expr>) -> (r: HybridArgumentIdf)
        requires
            old(self).base_name_factory.count < u64::MAX,
            old(self).size + size_in_uints(*t, old(self).sizes) <= u64::MAX,
        ensures
            r.name@ == fresh_name(old(self).base_name_factory.base_name@, old(self).base_name_factory.count, *t),
            r.t == *t,
            r.arg_type == old(self).arg_type,
            r.corresponding_priv_expression == priv_expr,
            final(self).base_name_factory.count == old(self).base_name_factory.count + 1,
            final(self).base_name_factory.base_name == old(self).base_name_factory.base_name,
            final(self).size == old(self).size + size_in_uints(*t, old(self).sizes),
            *t is Cipher ==> final(self).size == old(self).size + old(self).sizes.cipher_len,
            *t is Key ==> final(self).size == old(self).size + old(self).sizes.key_len,
            *t is Randomness ==> final(self).size == old(self).size + old(self).sizes.randomness_len,
            !(*t is Cipher || *t is Key || *t is Randomness) ==> final(self).size == old(self).size + 1,
            final(self).idfs@.map_values(|s: String| s@) == old(self).idfs@.map_values(|s: String| s@).push(r.name@),
            final(self).arg_type == old(self).arg_type,
            final(self).sizes == old(self).sizes,
    {
        let name = self.base_name_factory.get_new_name(t, true);
        let sz = self.type_size(t);
        self.size = self.size + sz;
        let ghost before = self.idfs@;
        self.idfs.push(name.clone());
        proof {
            assert(self.idfs@.map_values(|s: String| s@) =~= before.map_values(|s: String| s@).push(name@));
        }
        HybridArgumentIdf { name, t: t.copy(), arg_type: self.arg_type, corresponding_priv_expression: priv_expr }
    }

    /// An argument with the given name and type for `priv_expr`; the counter
    /// moves on, the size grows by the size of `t` and the name is recorded.
    pub fn add_idf(&mut self, name: String, t: &TypeName, priv_expr: Option<Expr>) -> (r: HybridArgumentIdf)
        requires
            old(self).base_name_factory.count < u64::MAX,
            old(self).size + size_in_uints(*t, old(self).sizes) <= u64::MAX,
        ensures
            r.name == name,
            r.t == *t,
            r.arg_type == old(self).arg_type,
            r.corresponding_priv_expression == priv_expr,
            final(self).base_name_factory.count == old(self).base_name_factory.count + 1,
            final(self).base_name_factory.base_name == old(self).base_name_factory.base_name,
            final(self).size == old(self).size + size_in_uints(*t, old(self).sizes),
            *t is Cipher ==> final(self).size == old(self).size + old(self).sizes.cipher_len,
            *t is Key ==> final(self).size == old(self).size + old(self).sizes.key_len,
            *t is Randomness ==> final(self).size == old(self).size + old(self).sizes.randomness_len,
            !(*t is Cipher || *t is Key || *t is Randomness) ==> final(self).size == old(self).size + 1,
            final(self).idfs@.map_values(|s: String| s@) == old(self).idfs@.map_values(|s: String| s@).push(name@),
            final(self).arg_type == old(self).arg_type,
            final(self).sizes == old(self).sizes,
    {
        self.base_name_factory.count = self.base_name_factory.count + 1;
        let sz = self.type_size(t);
        self.size = self.size + sz;
        let ghost before = self.idfs@;
        self.idfs.push(name.clone());
        proof {
            assert(self.idfs@.map_values(|s: String| s@) =~= before.map_values(|s: String| s@).push(name@));
        }
        HybridArgumentIdf { name, t: t.copy(), arg_type: self.arg_type, corresponding_priv_expression: priv_expr }
    }
}

} // verus!
