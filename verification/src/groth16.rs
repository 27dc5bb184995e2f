//! The verification key and verification contract of the Groth16 proving scheme.
use vstd::prelude::*;
use vstd::string::StringExecFns;
use crate::proving_scheme::{
    g1_text, g2_text, header_lines, is_zero_g1, negatable, negated_y, is_zero_g2, key_vector_lines, lines_text, lines_view, push_header_lines,
    push_key_vector_lines, push_verify_body_lines, push_verify_head_lines, verify_body_lines, verify_head_lines, zero_string,
    G1Point, G2Point, Lines, ProvingScheme, ProvingSchemeBase, VerificationContractParams, VerifyingKeyMeta,
};
use crate::text::decimal;

verus! {

/// A Groth16 verification key.
pub struct VerifyingKey {
    pub a: G1Point,
    pub b: G2Point,
    pub gamma: G2Point,
    pub delta: G2Point,
    pub gamma_abc: Vec<G1Point>,
}

impl VerifyingKey {
    pub fn new(a: G1Point, b: G2Point, gamma: G2Point, delta: G2Point, gamma_abc: Vec<G1Point>) -> (r: VerifyingKey)
        ensures
            r == (VerifyingKey { a, b, gamma, delta, gamma_abc }),
    {
        VerifyingKey { a, b, gamma, delta, gamma_abc }
    }
}

impl VerifyingKeyMeta for VerifyingKey {
    /// A key whose points are all zero, with two points in `gamma_abc`.
    fn create_dummy_key() -> (r: VerifyingKey)
        ensures
            is_zero_g1(r.a),
            is_zero_g2(r.b),
            is_zero_g2(r.gamma),
            is_zero_g2(r.delta),
            r.gamma_abc.len() == 2,
            forall|i: int| 0 <= i < 2 ==> is_zero_g1(#[trigger] r.gamma_abc@[i]),
    {
        let mut abc: Vec<G1Point> = Vec::new();
        abc.push(G1Point::default());
        abc.push(G1Point::default());
        let b = G2Point::new(zero_string(), zero_string(), zero_string(), zero_string());
        let gamma = G2Point::new(zero_string(), zero_string(), zero_string(), zero_string());
        let delta = G2Point::new(zero_string(), zero_string(), zero_string(), zero_string());
        VerifyingKey::new(G1Point::default(), b, gamma, delta, abc)
    }
}

/// The lines of a Groth16 verification contract.
pub open spec fn groth16_lines(
    p: VerificationContractParams,
    base: ProvingSchemeBase,
    vk: VerifyingKey,
    pis: Seq<String>,
    prover_key_hash: Seq<u8>,
) -> Seq<Seq<char>> {
    header_lines(p, base, prover_key_hash) + seq![
        "G1 a_neg;"@,
        "G2 b;"@,
        "G2 gamma;"@,
        "G2 delta;"@,
        "G1["@ + decimal(vk.gamma_abc.len() as nat) + "] gamma_abc;"@,
        "}"@,
        "function getVk() pure internal returns(Vk memory vk) {"@,
        "vk.a_neg = G1("@ + g1_text(vk.a.x@, negated_y(vk.a)) + ");"@,
        "vk.b = G2("@ + g2_text(vk.b) + ");"@,
        "vk.gamma = G2("@ + g2_text(vk.gamma) + ");"@,
        "vk.delta = G2("@ + g2_text(vk.delta) + ");"@
    ] + key_vector_lines("gamma_abc"@, vk.gamma_abc@) + verify_head_lines(p, false) + verify_body_lines(
        p,
        base,
        "gamma_abc"@,
        pis,
    ) + seq![
        "require(Pairing.pairingProd4(proof.a, proof.b, lc.negate(), vk.gamma, proof.c.negate(), vk.delta, vk.a_neg, vk.b), \"invalid proof\");"@,
        "}"@,
        "}"@
    ]
}

/// The verification contract sets `vk.a_neg` to the negation of the key's
/// `a`: one of its lines assigns it the point with the x of `a` and the
/// negated y (see `law_negated_point_cancels`).
pub proof fn law_groth16_negates_a(
    p: VerificationContractParams,
    base: ProvingSchemeBase,
    vk: VerifyingKey,
    pis: Seq<String>,
    prover_key_hash: Seq<u8>,
)
    ensures
        exists|k: int|
            0 <= k < groth16_lines(p, base, vk, pis, prover_key_hash).len()
                && #[trigger] groth16_lines(p, base, vk, pis, prover_key_hash)[k] == "vk.a_neg = G1("@ + g1_text(vk.a.x@, negated_y(vk.a)) + ");"@,
{
    let k: int = header_lines(p, base, prover_key_hash).len() as int + 7;
    assert(groth16_lines(p, base, vk, pis, prover_key_hash)[k] == "vk.a_neg = G1("@ + g1_text(vk.a.x@, negated_y(vk.a)) + ");"@);
}

/// The Groth16 proving scheme.
pub struct ProvingSchemeGroth16 {
    pub base: ProvingSchemeBase,
}

impl ProvingScheme for ProvingSchemeGroth16 {
    fn name(&self) -> (r: String)
        ensures
            r@ == "groth16"@,
    {
        proof {
            reveal_strlit("groth16");
        }
        String::from_str("groth16")
    }

    fn hash_var_name(&self) -> (r: String)
        ensures
            r@ == self.base.hash_var_name@,
    {
        self.base.hash_var_name.clone()
    }
}

impl ProvingSchemeGroth16 {
    pub fn new() -> (r: ProvingSchemeGroth16)
        ensures
            r.base.hash_var_name@ == "hash"@,
            r.base.snark_scalar_field_var_name@ == "snark_scalar_field"@,
            r.base.verify_libs_contract_filename@ == "./verify_libs.sol"@,
    {
        ProvingSchemeGroth16 { base: ProvingSchemeBase::new() }
    }

    /// The verification contract for a circuit with the given key, public
    /// inputs (one fewer than the key's `gamma_abc` points, at least one) and
    /// prover key hash (see `groth16_lines`), one line after another.
    pub fn generate_verification_contract(
        &self,
        verification_key: &VerifyingKey,
        params: &VerificationContractParams,
        primary_inputs: &Vec<String>,
        prover_key_hash: &Vec<u8>,
    ) -> (r: String)
        requires
            verification_key.gamma_abc.len() == primary_inputs.len() + 1,
            primary_inputs.len() > 0,
            negatable(verification_key.a),
        ensures
            r@ == lines_text(groth16_lines(*params, self.base, *verification_key, primary_inputs@, prover_key_hash@)),
    {
        let vk = verification_key;
        let mut out = Lines::new();
        push_header_lines(&mut out, params, &self.base, prover_key_hash);
        out.push_str("G1 a_neg;");
        out.push_str("G2 b;");
        out.push_str("G2 gamma;");
        out.push_str("G2 delta;");
        let mut l = String::from_str("G1[");
        let d = crate::text::decimal_string(vk.gamma_abc.len() as u64);
        l.append(d.as_str());
        l.append("] gamma_abc;");
        out.push(l);
        out.push_str("}");
        out.push_str("function getVk() pure internal returns(Vk memory vk) {");
        let mut l = String::from_str("vk.a_neg = G1(");
        l.append(vk.a.negated().to_string().as_str());
        l.append(");");
        out.push(l);
        let mut l = String::from_str("vk.b = G2(");
        l.append(vk.b.to_string().as_str());
        l.append(");");
        out.push(l);
        let mut l = String::from_str("vk.gamma = G2(");
        l.append(vk.gamma.to_string().as_str());
        l.append(");");
        out.push(l);
        let mut l = String::from_str("vk.delta = G2(");
        l.append(vk.delta.to_string().as_str());
        l.append(");");
        out.push(l);
        push_key_vector_lines(&mut out, "gamma_abc", &vk.gamma_abc);
        push_verify_head_lines(&mut out, params, false);
        push_verify_body_lines(&mut out, params, &self.base, "gamma_abc", primary_inputs);
        out.push_str("require(Pairing.pairingProd4(proof.a, proof.b, lc.negate(), vk.gamma, proof.c.negate(), vk.delta, vk.a_neg, vk.b), \"invalid proof\");");
        out.push_str("}");
        out.push_str("}");
        proof {
            assert(lines_view(out.lines@) =~= groth16_lines(*params, self.base, *verification_key, primary_inputs@, prover_key_hash@));
        }
        out.text()
    }
}

} // verus!
