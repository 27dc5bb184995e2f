//! The verification key and verification contract of the GM17 proving scheme.
use vstd::prelude::*;
use vstd::string::StringExecFns;
use crate::proving_scheme::{
    g1_text, g2_text, header_lines, key_vector_lines, lines_text, lines_view, push_header_lines, push_key_vector_lines,
    push_verify_body_lines, push_verify_head_lines, verify_body_lines, verify_head_lines, G1Point, G2Point, Lines,
    ProvingScheme, ProvingSchemeBase, VerificationContractParams, VerifyingKeyMeta, zero_string, is_zero_g1, negatable, negated_y, is_zero_g2,
};
use crate::text::decimal;

verus! {

/// A GM17 verification key.
pub struct VerifyingKey {
    pub h: G2Point,
    pub g_alpha: G1Point,
    pub h_beta: G2Point,
    pub g_gamma: G1Point,
    pub h_gamma: G2Point,
    pub query: Vec<G1Point>,
}

impl VerifyingKey {
    pub fn new(h: G2Point, g_alpha: G1Point, h_beta: G2Point, g_gamma: G1Point, h_gamma: G2Point, query: Vec<G1Point>) -> (r: VerifyingKey)
        ensures
            r == (VerifyingKey { h, g_alpha, h_beta, g_gamma, h_gamma, query }),
    {
        VerifyingKey { h, g_alpha, h_beta, g_gamma, h_gamma, query }
    }
}

impl VerifyingKeyMeta for VerifyingKey {
    /// A key whose points are all zero, with two query points.
    fn create_dummy_key() -> (r: VerifyingKey)
        ensures
            is_zero_g2(r.h),
            is_zero_g2(r.h_beta),
            is_zero_g2(r.h_gamma),
            is_zero_g1(r.g_alpha),
            is_zero_g1(r.g_gamma),
            r.query.len() == 2,
            forall|i: int| 0 <= i < 2 ==> is_zero_g1(#[trigger] r.query@[i]),
    {
        let mut query: Vec<G1Point> = Vec::new();
        query.push(G1Point::default());
        query.push(G1Point::default());
        let h = G2Point::new(zero_string(), zero_string(), zero_string(), zero_string());
        let h_beta = G2Point::new(zero_string(), zero_string(), zero_string(), zero_string());
        let h_gamma = G2Point::new(zero_string(), zero_string(), zero_string(), zero_string());
        VerifyingKey::new(h, G1Point::default(), h_beta, G1Point::default(), h_gamma, query)
    }
}

/// The lines of a GM17 verification contract.
pub open spec fn gm17_lines(
    p: VerificationContractParams,
    base: ProvingSchemeBase,
    vk: VerifyingKey,
    pis: Seq<String>,
    prover_key_hash: Seq<u8>,
) -> Seq<Seq<char>> {
    header_lines(p, base, prover_key_hash) + seq![
        "G2 h;"@,
        "G1 g_alpha;"@,
        "G2 h_beta;"@,
        "G1 g_gamma_neg;"@,
        "G2 h_gamma;"@,
        "G1["@ + decimal(vk.query.len() as nat) + "] query;"@,
        "}"@,
        "function getVk() pure internal returns(Vk memory vk) {"@,
        "vk.h = G2("@ + g2_text(vk.h) + ");"@,
        "vk.g_alpha = G1("@ + g1_text(vk.g_alpha.x@, vk.g_alpha.y@) + ");"@,
        "vk.h_beta = G2("@ + g2_text(vk.h_beta) + ");"@,
        "vk.g_gamma_neg = G1("@ + g1_text(vk.g_gamma.x@, negated_y(vk.g_gamma)) + ");"@,
        "vk.h_gamma = G2("@ + g2_text(vk.h_gamma) + ");"@
    ] + key_vector_lines("query"@, vk.query@) + verify_head_lines(p, true) + verify_body_lines(p, base, "query"@, pis)
        + seq![
        "require(Pairing.pairingProd2(proof.a, vk.h_gamma, vk.g_gamma_neg, proof.b), \"invalid proof 1/2\");"@,
        "require(Pairing.pairingProd4(vk.g_alpha, vk.h_beta, lc, vk.h_gamma, proof.c, vk.h, proof.a.add(vk.g_alpha).negate(), proof.b.add(vk.h_beta)), \"invalid proof 2/2\");"@,
        "}"@,
        "}"@
    ]
}

/// The verification contract sets `vk.g_gamma_neg` to the negation of the key's
/// `g_gamma`: one of its lines assigns it the point with the x of `g_gamma` and the
/// negated y (see `law_negated_point_cancels`).
pub proof fn law_gm17_negates_g_gamma(
    p: VerificationContractParams,
    base: ProvingSchemeBase,
    vk: VerifyingKey,
    pis: Seq<String>,
    prover_key_hash: Seq<u8>,
)
    ensures
        exists|k: int|
            0 <= k < gm17_lines(p, base, vk, pis, prover_key_hash).len()
                && #[trigger] gm17_lines(p, base, vk, pis, prover_key_hash)[k] == "vk.g_gamma_neg = G1("@ + g1_text(vk.g_gamma.x@, negated_y(vk.g_gamma)) + ");"@,
{
    let k: int = header_lines(p, base, prover_key_hash).len() as int + 11;
    assert(gm17_lines(p, base, vk, pis, prover_key_hash)[k] == "vk.g_gamma_neg = G1("@ + g1_text(vk.g_gamma.x@, negated_y(vk.g_gamma)) + ");"@);
}

/// The GM17 proving scheme.
pub struct ProvingSchemeGm17 {
    pub base: ProvingSchemeBase,
}

impl ProvingScheme for ProvingSchemeGm17 {
    fn name(&self) -> (r: String)
        ensures
            r@ == "gm17"@,
    {
        proof {
            reveal_strlit("gm17");
        }
        String::from_str("gm17")
    }

    fn hash_var_name(&self) -> (r: String)
        ensures
            r@ == self.base.hash_var_name@,
    {
        self.base.hash_var_name.clone()
    }
}

impl ProvingSchemeGm17 {
    pub fn new() -> (r: ProvingSchemeGm17)
        ensures
            r.base.hash_var_name@ == "hash"@,
            r.base.snark_scalar_field_var_name@ == "snark_scalar_field"@,
            r.base.verify_libs_contract_filename@ == "./verify_libs.sol"@,
    {
        ProvingSchemeGm17 { base: ProvingSchemeBase::new() }
    }

    /// The verification contract for a circuit with the given key, public
    /// inputs (one fewer than the key's query points, at least one) and
    /// prover key hash (see `gm17_lines`), one line after another.
    pub fn generate_verification_contract(
        &self,
        verification_key: &VerifyingKey,
        params: &VerificationContractParams,
        primary_inputs: &Vec<String>,
        prover_key_hash: &Vec<u8>,
    ) -> (r: String)
        requires
            verification_key.query.len() == primary_inputs.len() + 1,
            primary_inputs.len() > 0,
            negatable(verification_key.g_gamma),
        ensures
            r@ == lines_text(gm17_lines(*params, self.base, *verification_key, primary_inputs@, prover_key_hash@)),
    {
        let vk = verification_key;
        let mut out = Lines::new();
        push_header_lines(&mut out, params, &self.base, prover_key_hash);
        let ghost h = lines_view(out.lines@);
        out.push_str("G2 h;");
        out.push_str("G1 g_alpha;");
        out.push_str("G2 h_beta;");
        out.push_str("G1 g_gamma_neg;");
        out.push_str("G2 h_gamma;");
        let mut l = String::from_str("G1[");
        let d = crate::text::decimal_string(vk.query.len() as u64);
        l.append(d.as_str());
        l.append("] query;");
        out.push(l);
        out.push_str("}");
        out.push_str("function getVk() pure internal returns(Vk memory vk) {");
        let mut l = String::from_str("vk.h = G2(");
        l.append(vk.h.to_string().as_str());
        l.append(");");
        out.push(l);
        let mut l = String::from_str("vk.g_alpha = G1(");
        l.append(vk.g_alpha.to_string().as_str());
        l.append(");");
        out.push(l);
        let mut l = String::from_str("vk.h_beta = G2(");
        l.append(vk.h_beta.to_string().as_str());
        l.append(");");
        out.push(l);
        let mut l = String::from_str("vk.g_gamma_neg = G1(");
        l.append(vk.g_gamma.negated().to_string().as_str());
        l.append(");");
        out.push(l);
        let mut l = String::from_str("vk.h_gamma = G2(");
        l.append(vk.h_gamma.to_string().as_str());
        l.append(");");
        out.push(l);
        push_key_vector_lines(&mut out, "query", &vk.query);
        push_verify_head_lines(&mut out, params, true);
        push_verify_body_lines(&mut out, params, &self.base, "query", primary_inputs);
        out.push_str("require(Pairing.pairingProd2(proof.a, vk.h_gamma, vk.g_gamma_neg, proof.b), \"invalid proof 1/2\");");
        out.push_str("require(Pairing.pairingProd4(vk.g_alpha, vk.h_beta, lc, vk.h_gamma, proof.c, vk.h, proof.a.add(vk.g_alpha).negate(), proof.b.add(vk.h_beta)), \"invalid proof 2/2\");");
        out.push_str("}");
        out.push_str("}");
        proof {
            assert(lines_view(out.lines@) =~= gm17_lines(*params, self.base, *verification_key, primary_inputs@, prover_key_hash@));
        }
        out.text()
    }
}

} // verus!
