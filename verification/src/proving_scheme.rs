//! Proving schemes: curve points, verification keys, and the verification
//! contracts that check proofs on chain.
use vstd::prelude::*;
use vstd::string::StringExecFns;
use crate::field::{field_prime, is_literal, law_negated_coordinate_cancels, literal_value, negate_coordinate, negated_coordinate};
use crate::text::{decimal, decimal_string, hex_bytes, hex_string};

verus! {

/// A curve point, by the integer literals of its coordinates.
pub struct G1Point {
    pub x: String,
    pub y: String,
}

/// The text of a point as Solidity arguments: `uint256(x), uint256(y)`.
pub open spec fn g1_text(x: Seq<char>, y: Seq<char>) -> Seq<char> {
    "uint256("@ + x + "), uint256("@ + y + ")"@
}

impl G1Point {
    /// The point with the given coordinates.
    pub fn new(x: String, y: String) -> (r: G1Point)
        ensures
            r.x == x,
            r.y == y,
    {
        G1Point { x, y }
    }

    /// The point (0, 0).
    pub fn default() -> (r: G1Point)
        ensures
            r.x@ == seq!['0'],
            r.y@ == seq!['0'],
    {
        let x = String::from_str("0");
        let y = String::from_str("0");
        proof {
            reveal_strlit("0");
        }
        G1Point { x, y }
    }

    /// A copy of the point.
    pub fn copy(&self) -> (r: G1Point)
        ensures
            r.x@ == self.x@,
            r.y@ == self.y@,
    {
        G1Point { x: self.x.clone(), y: self.y.clone() }
    }

    /// The negated point: (0, 0) for (0, 0); else the same x, and for y the
    /// field prime minus y modulo the prime, in hexadecimal.
    pub fn negated(&self) -> (r: G1Point)
        requires
            negatable(*self),
        ensures
            r.x@ == self.x@,
            r.y@ == negated_y(*self),
    {
        let zero = String::from_str("0");
        proof {
            reveal_strlit("0");
            assert(zero@ =~= seq!['0']);
        }
        if self.x == zero && self.y == zero {
            G1Point::default()
        } else {
            G1Point::new(self.x.clone(), negate_coordinate(&self.y))
        }
    }

    /// Whether the point can be negated (see `negatable`).
    pub fn can_negate(&self) -> (r: bool)
        ensures
            r == negatable(*self),
    {
        let zero = String::from_str("0");
        proof {
            reveal_strlit("0");
            assert(zero@ =~= seq!['0']);
        }
        (self.x == zero && self.y == zero) || is_literal(&self.y)
    }

    /// The point from a sequence of its two coordinates.
    pub fn from_seq(seq: &Vec<String>) -> (r: G1Point)
        requires
            seq.len() == 2,
        ensures
            r.x@ == seq@[0]@,
            r.y@ == seq@[1]@,
    {
        G1Point::new(seq[0].clone(), seq[1].clone())
    }

    /// The point from the next two coordinates of `items`, from `*pos` on.
    pub fn from_it(items: &Vec<String>, pos: &mut usize) -> (r: G1Point)
        requires
            *old(pos) + 2 <= items.len(),
        ensures
            r.x@ == items@[*old(pos) as int]@,
            r.y@ == items@[*old(pos) + 1]@,
            *final(pos) == *old(pos) + 2,
    {
        let x = items[*pos].clone();
        let y = items[*pos + 1].clone();
        *pos = *pos + 2;
        G1Point::new(x, y)
    }

    /// `uint256(x), uint256(y)`.
    pub fn to_string(&self) -> (r: String)
        ensures
            r@ == g1_text(self.x@, self.y@),
    {
        let mut s = String::from_str("uint256(");
        s.append(self.x.as_str());
        s.append("), uint256(");
        s.append(self.y.as_str());
        s.append(")");
        s
    }
}

/// The point can be negated: it is (0, 0), or its y is an integer literal
/// (see `literal_value`).
pub open spec fn negatable(p: G1Point) -> bool {
    is_zero_g1(p) || literal_value(p.y@) is Some
}

/// The y coordinate of the negated point: `0` for (0, 0), else
/// `negated_coordinate` of y.
pub open spec fn negated_y(p: G1Point) -> Seq<char> {
    if is_zero_g1(p) {
        seq!['0']
    } else {
        negated_coordinate(p.y@)
    }
}

/// Negation cancels the y coordinate: for a point that can be negated, the
/// negated y is an integer literal `v <= q` and `v + y` is a multiple of the
/// field prime `q` (for (0, 0) both are 0).
pub proof fn law_negated_point_cancels(p: G1Point)
    requires
        negatable(p),
    ensures
        literal_value(negated_y(p)) matches Some(v)
            && literal_value(p.y@) matches Some(y)
            && (v + y) % field_prime() == 0
            && v <= field_prime(),
{
    if is_zero_g1(p) {
        let z = seq!['0'];
        assert(z.subrange(0, 1) =~= z);
        assert(z.drop_last() =~= Seq::<char>::empty());
        assert(crate::field::literal_base(z) == (10nat, 0int));
        assert(crate::field::digit_value(z[0]) == 0);
        assert(crate::field::digits_value(z.drop_last(), 10) == 0);
        assert(z.last() == '0');
        assert(crate::field::digits_value(z, 10) == 0);
        assert(crate::field::digits_in(z, 10));
        assert(forall|i: int| 0 <= i < z.len() ==> z[i] == '0');
        assert(literal_value(z) == Some(0nat));
    } else {
        law_negated_coordinate_cancels(p.y@);
    }
}

/// A point encoded by two field elements per coordinate.
pub struct G2Point {
    pub x: G1Point,
    pub y: G1Point,
}

/// The text of a point: `[x], [y]`, each coordinate as a pair.
pub open spec fn g2_text(p: G2Point) -> Seq<char> {
    "["@ + g1_text(p.x.x@, p.x.y@) + "], ["@ + g1_text(p.y.x@, p.y.y@) + "]"@
}

impl G2Point {
    /// The point with coordinates (x1, x2) and (y1, y2).
    pub fn new(x1: String, x2: String, y1: String, y2: String) -> (r: G2Point)
        ensures
            r.x.x == x1,
            r.x.y == x2,
            r.y.x == y1,
            r.y.y == y2,
    {
        G2Point { x: G1Point::new(x1, x2), y: G1Point::new(y1, y2) }
    }

    /// A copy of the point.
    pub fn copy(&self) -> (r: G2Point)
        ensures
            g2_text(r) == g2_text(*self),
            r.x.x@ == self.x.x@,
            r.x.y@ == self.x.y@,
            r.y.x@ == self.y.x@,
            r.y.y@ == self.y.y@,
    {
        G2Point { x: self.x.copy(), y: self.y.copy() }
    }

    /// The point from a sequence of its four field elements.
    pub fn from_seq(seq: &Vec<String>) -> (r: G2Point)
        requires
            seq.len() == 4,
        ensures
            r.x.x@ == seq@[0]@,
            r.x.y@ == seq@[1]@,
            r.y.x@ == seq@[2]@,
            r.y.y@ == seq@[3]@,
    {
        G2Point::new(seq[0].clone(), seq[1].clone(), seq[2].clone(), seq[3].clone())
    }

    /// The point from the next four field elements of `items`, from `*pos` on.
    pub fn from_it(items: &Vec<String>, pos: &mut usize) -> (r: G2Point)
        requires
            *old(pos) + 4 <= items.len(),
        ensures
            r.x.x@ == items@[*old(pos) as int]@,
            r.x.y@ == items@[*old(pos) + 1]@,
            r.y.x@ == items@[*old(pos) + 2]@,
            r.y.y@ == items@[*old(pos) + 3]@,
            *final(pos) == *old(pos) + 4,
    {
        let p = *pos;
        let r = G2Point::new(items[p].clone(), items[p + 1].clone(), items[p + 2].clone(), items[p + 3].clone());
        *pos = p + 4;
        r
    }

    /// `[uint256(x1), uint256(x2)], [uint256(y1), uint256(y2)]`.
    pub fn to_string(&self) -> (r: String)
        ensures
            r@ == g2_text(*self),
    {
        let mut s = String::from_str("[");
        let a = self.x.to_string();
        s.append(a.as_str());
        s.append("], [");
        let b = self.y.to_string();
        s.append(b.as_str());
        s.append("]");
        s
    }
}

/// The names that a proving scheme gives the special variables of a
/// verification contract.
pub struct ProvingSchemeBase {
    pub verify_libs_contract_filename: String,
    pub snark_scalar_field_var_name: String,
    pub hash_var_name: String,
    pub name: String,
}

impl ProvingSchemeBase {
    pub fn new() -> (r: ProvingSchemeBase)
        ensures
            r.verify_libs_contract_filename@ == "./verify_libs.sol"@,
            r.snark_scalar_field_var_name@ == "snark_scalar_field"@,
            r.hash_var_name@ == "hash"@,
            r.name@ == "none"@,
    {
        ProvingSchemeBase {
            verify_libs_contract_filename: String::from_str("./verify_libs.sol"),
            snark_scalar_field_var_name: String::from_str("snark_scalar_field"),
            hash_var_name: String::from_str("hash"),
            name: String::from_str("none"),
        }
    }
}

/// A verification key that has a placeholder.
pub trait VerifyingKeyMeta: Sized {
    /// A key whose points are all (0, 0).
    fn create_dummy_key() -> Self;
}

/// What a verification contract is generated from, besides the key: the
/// compiler's settings and the circuit's sizes.
pub struct VerificationContractParams {
    pub solc_version: String,
    pub verification_contract_name: String,
    pub prover_key_hash_name: String,
    pub verification_function_name: String,
    pub zk_in_name: String,
    pub zk_out_name: String,
    pub in_size_trans: usize,
    pub out_size_trans: usize,
    pub should_use_hash: bool,
}

/// The order of the scalar field of BN128.
pub open spec fn bn128_scalar_field() -> Seq<char> {
    "21888242871839275222246405745257275088548364400416034343698204186575808495617"@
}

/// The lines that check that the public inputs other than `1` and the hash
/// are below the scalar field.
pub open spec fn overflow_lines(pis: Seq<String>, hash: Seq<char>, sf: Seq<char>) -> Seq<Seq<char>>
    decreases pis.len(),
{
    if pis.len() == 0 {
        seq![]
    } else {
        let prev = overflow_lines(pis.drop_last(), hash, sf);
        let pi = pis.last()@;
        if pi == "1"@ || pi == hash {
            prev
        } else {
            prev.push("require("@ + pi + " < "@ + sf + ");"@)
        }
    }
}

/// The term of the key vector `vec` at `idx` scaled by the input `pi` (unscaled for `1`).
pub open spec fn lc_term(vec: Seq<char>, idx: nat, pi: Seq<char>) -> Seq<char> {
    if pi == "1"@ {
        "vk."@ + vec + "["@ + decimal(idx) + "]"@
    } else {
        "vk."@ + vec + "["@ + decimal(idx) + "].scalar_mul("@ + pi + ")"@
    }
}

/// The lines adding the inputs after the first to the linear combination.
pub open spec fn lc_add_lines(vec: Seq<char>, pis: Seq<String>) -> Seq<Seq<char>>
    decreases pis.len(),
{
    if pis.len() <= 1 {
        seq![]
    } else {
        lc_add_lines(vec, pis.drop_last()).push("lc = lc.add("@ + lc_term(vec, pis.len() as nat, pis.last()@) + ");"@)
    }
}

/// The lines setting the key vector `vec` to the points.
pub open spec fn key_vector_lines(vec: Seq<char>, points: Seq<G1Point>) -> Seq<Seq<char>>
    decreases points.len(),
{
    if points.len() == 0 {
        seq![]
    } else {
        key_vector_lines(vec, points.drop_last()).push(
            "vk."@ + vec + "["@ + decimal((points.len() - 1) as nat) + "] = G1("@ + g1_text(points.last().x@, points.last().y@)
                + ");"@,
        )
    }
}

/// The lines of the header of a verification contract, up to the key.
pub open spec fn header_lines(p: VerificationContractParams, base: ProvingSchemeBase, prover_key_hash: Seq<u8>) -> Seq<Seq<char>> {
    seq![
        "pragma solidity "@ + p.solc_version@ + ";"@,
        "import { Pairing, G1Point as G1, G2Point as G2 } from \""@ + base.verify_libs_contract_filename@ + "\";"@,
        "contract "@ + p.verification_contract_name@ + " {"@,
        "using Pairing for G1;"@,
        "using Pairing for G2;"@,
        "bytes32 public constant "@ + p.prover_key_hash_name@ + " = 0x"@ + hex_bytes(prover_key_hash) + ";"@,
        "uint256 constant "@ + base.snark_scalar_field_var_name@ + " = "@ + bn128_scalar_field() + ";"@,
        "struct Proof {"@,
        "G1 a;"@,
        "G2 b;"@,
        "G1 c;"@,
        "}"@,
        "struct Vk {"@
    ]
}

/// The lines that open the verification function and check the sizes of
/// the inputs and outputs (with messages in `with_messages`).
pub open spec fn verify_head_lines(p: VerificationContractParams, with_messages: bool) -> Seq<Seq<char>> {
    seq![
        "}"@,
        "function "@ + p.verification_function_name@ + "(uint[8] memory proof_, uint[] memory "@ + p.zk_in_name@
            + ", uint[] memory "@ + p.zk_out_name@ + ") public {"@,
        "// Check if input size correct"@,
        "require("@ + p.zk_in_name@ + ".length == "@ + decimal(p.in_size_trans as nat) + (if with_messages {
            ", \"Wrong public input length\");"@
        } else {
            ");"@
        }),
        "// Check if output size correct"@,
        "require("@ + p.zk_out_name@ + ".length == "@ + decimal(p.out_size_trans as nat) + (if with_messages {
            ", \"Wrong public output length\");"@
        } else {
            ");"@
        })
    ]
}

/// The lines that check the inputs for overflow, build the proof, hash the
/// inputs where that is asked, and start the linear combination.
pub open spec fn verify_body_lines(
    p: VerificationContractParams,
    base: ProvingSchemeBase,
    vec: Seq<char>,
    pis: Seq<String>,
) -> Seq<Seq<char>> {
    let ov = overflow_lines(pis, base.hash_var_name@, base.snark_scalar_field_var_name@);
    let ov_block = if ov.len() == 0 { seq![] } else { seq!["// Check that inputs do not overflow"@] + ov };
    let hash_block = if p.should_use_hash {
        seq![
            "uint256 "@ + base.hash_var_name@ + " = uint256(sha256(abi.encodePacked("@ + p.zk_in_name@ + ", "@ + p.zk_out_name@
                + ")) >> 2);"@
        ]
    } else {
        seq![]
    };
    ov_block + seq![
        "// Create proof and vk data structures"@,
        "Proof memory proof;"@,
        "proof.a = G1(proof_[0], proof_[1]);"@,
        "proof.b = G2([proof_[2], proof_[3]], [proof_[4], proof_[5]]);"@,
        "proof.c = G1(proof_[6], proof_[7]);"@,
        "Vk memory vk = getVk();"@,
        "// Compute linear combination of public inputs"@
    ] + hash_block + seq!["G1 memory lc = "@ + lc_term(vec, 1, pis[0]@) + ";"@] + lc_add_lines(vec, pis) + seq![
        "lc = lc.add(vk."@ + vec + "[0]);"@,
        "// Verify proof"@
    ]
}

/// The contract text: its lines, each ended by a newline.
pub open spec fn lines_text(lines: Seq<Seq<char>>) -> Seq<char>
    decreases lines.len(),
{
    if lines.len() == 0 {
        seq![]
    } else {
        lines_text(lines.drop_last()) + lines.last() + seq!['\n']
    }
}

/// Lines being built.
pub struct Lines {
    pub lines: Vec<String>,
}

/// The text of each line.
pub open spec fn lines_view(v: Seq<String>) -> Seq<Seq<char>> {
    v.map_values(|s: String| s@)
}

impl Lines {
    pub fn new() -> (r: Lines)
        ensures
            lines_view(r.lines@) == Seq::<Seq<char>>::empty(),
    {
        let r = Lines { lines: Vec::new() };
        proof {
            assert(lines_view(r.lines@) =~= Seq::<Seq<char>>::empty());
        }
        r
    }

    pub fn push(&mut self, s: String)
        ensures
            lines_view(final(self).lines@) == lines_view(old(self).lines@).push(s@),
    {
        self.lines.push(s);
        proof {
            assert(lines_view(self.lines@) =~= lines_view(old(self).lines@).push(s@));
        }
    }

    pub fn push_str(&mut self, s: &str)
        ensures
            lines_view(final(self).lines@) == lines_view(old(self).lines@).push(s@),
    {
        self.push(String::from_str(s));
    }

    /// The text of the lines, each ended by a newline.
    pub fn text(&self) -> (r: String)
        ensures
            r@ == lines_text(lines_view(self.lines@)),
    {
        let mut s = String::new();
        let mut i: usize = 0;
        while i < self.lines.len()
            invariant
                i <= self.lines.len(),
                s@ == lines_text(lines_view(self.lines@).subrange(0, i as int)),
            decreases self.lines.len() - i,
        {
            s.append(self.lines[i].as_str());
            s.append("\n");
            proof {
                reveal_strlit("\n");
                let sub = lines_view(self.lines@).subrange(0, i + 1);
                assert(sub.drop_last() =~= lines_view(self.lines@).subrange(0, i as int));
            }
            i = i + 1;
        }
        proof {
            assert(lines_view(self.lines@).subrange(0, i as int) =~= lines_view(self.lines@));
        }
        s
    }
}

/// The numeral `0`.
pub fn zero_string() -> (r: String)
    ensures
        r@ == seq!['0'],
{
    let s = String::from_str("0");
    proof {
        reveal_strlit("0");
        assert(s@ =~= seq!['0']);
    }
    s
}

/// Both coordinates of the point are `0`.
pub open spec fn is_zero_g1(p: G1Point) -> bool {
    p.x@ == seq!['0'] && p.y@ == seq!['0']
}

/// All four field elements of the point are `0`.
pub open spec fn is_zero_g2(p: G2Point) -> bool {
    is_zero_g1(p.x) && is_zero_g1(p.y)
}

/// The names and settings of a proving scheme.
pub trait ProvingScheme {
    /// The scheme's name.
    fn name(&self) -> String;

    /// The variable holding the hash of the public inputs.
    fn hash_var_name(&self) -> String;
}

/// Appends the overflow checks of the inputs (see `overflow_lines`).
pub fn push_overflow_lines(out: &mut Lines, pis: &Vec<String>, hash: &String, sf: &String)
    ensures
        lines_view(final(out).lines@) == lines_view(old(out).lines@) + overflow_lines(pis@, hash@, sf@),
{
    let ghost start = lines_view(out.lines@);
    let one = String::from_str("1");
    let mut i: usize = 0;
    while i < pis.len()
        invariant
            i <= pis.len(),
            one@ == "1"@,
            lines_view(out.lines@) == start + overflow_lines(pis@.subrange(0, i as int), hash@, sf@),
        decreases pis.len() - i,
    {
        let pi = &pis[i];
        proof {
            let sub = pis@.subrange(0, i + 1);
            assert(sub.drop_last() =~= pis@.subrange(0, i as int));
            assert(sub.last() == *pi);
        }
        if !(*pi == one || *pi == *hash) {
            let mut l = String::from_str("require(");
            l.append(pi.as_str());
            l.append(" < ");
            l.append(sf.as_str());
            l.append(");");
            out.push(l);
            proof {
                assert(lines_view(out.lines@) =~= start + overflow_lines(pis@.subrange(0, i + 1), hash@, sf@));
            }
        }
        i = i + 1;
    }
    proof {
        assert(pis@.subrange(0, pis.len() as int) =~= pis@);
    }
}

/// The term of the key vector `vec` at `idx` scaled by `pi` (see `lc_term`).
pub fn lc_term_exec(vec: &str, idx: usize, pi: &String) -> (r: String)
    ensures
        r@ == lc_term(vec@, idx as nat, pi@),
{
    let one = String::from_str("1");
    let mut s = String::from_str("vk.");
    s.append(vec);
    s.append("[");
    let d = decimal_string(idx as u64);
    s.append(d.as_str());
    if *pi == one {
        s.append("]");
    } else {
        s.append("].scalar_mul(");
        s.append(pi.as_str());
        s.append(")");
    }
    s
}

/// Appends the lines adding the inputs after the first (see `lc_add_lines`).
pub fn push_lc_add_lines(out: &mut Lines, vec: &str, pis: &Vec<String>)
    ensures
        lines_view(final(out).lines@) == lines_view(old(out).lines@) + lc_add_lines(vec@, pis@),
{
    let ghost start = lines_view(out.lines@);
    let mut i: usize = 1;
    if pis.len() == 0 {
        proof {
            assert(lc_add_lines(vec@, pis@) =~= seq![]);
            assert(lines_view(out.lines@) =~= start + seq![]);
        }
        return;
    }
    proof {
        assert(lc_add_lines(vec@, pis@.subrange(0, 1)) =~= seq![]);
        assert(lines_view(out.lines@) =~= start + seq![]);
    }
    while i < pis.len()
        invariant
            1 <= i <= pis.len(),
            lines_view(out.lines@) == start + lc_add_lines(vec@, pis@.subrange(0, i as int)),
        decreases pis.len() - i,
    {
        let mut l = String::from_str("lc = lc.add(");
        let t = lc_term_exec(vec, i + 1, &pis[i]);
        l.append(t.as_str());
        l.append(");");
        out.push(l);
        proof {
            let sub = pis@.subrange(0, i + 1);
            assert(sub.drop_last() =~= pis@.subrange(0, i as int));
            assert(sub.last() == pis@[i as int]);
            assert(lines_view(out.lines@) =~= start + lc_add_lines(vec@, pis@.subrange(0, i + 1)));
        }
        i = i + 1;
    }
    proof {
        assert(pis@.subrange(0, pis.len() as int) =~= pis@);
    }
}

/// Appends the lines setting the key vector `vec` (see `key_vector_lines`).
pub fn push_key_vector_lines(out: &mut Lines, vec: &str, points: &Vec<G1Point>)
    ensures
        lines_view(final(out).lines@) == lines_view(old(out).lines@) + key_vector_lines(vec@, points@),
{
    let ghost start = lines_view(out.lines@);
    let mut i: usize = 0;
    while i < points.len()
        invariant
            i <= points.len(),
            lines_view(out.lines@) == start + key_vector_lines(vec@, points@.subrange(0, i as int)),
        decreases points.len() - i,
    {
        let mut l = String::from_str("vk.");
        l.append(vec);
        l.append("[");
        let d = decimal_string(i as u64);
        l.append(d.as_str());
        l.append("] = G1(");
        let t = points[i].to_string();
        l.append(t.as_str());
        l.append(");");
        out.push(l);
        proof {
            let sub = points@.subrange(0, i + 1);
            assert(sub.drop_last() =~= points@.subrange(0, i as int));
            assert(sub.last() == points@[i as int]);
            assert(lines_view(out.lines@) =~= start + key_vector_lines(vec@, points@.subrange(0, i + 1)));
        }
        i = i + 1;
    }
    proof {
        assert(points@.subrange(0, points.len() as int) =~= points@);
    }
}

/// Appends the header lines (see `header_lines`).
pub fn push_header_lines(out: &mut Lines, p: &VerificationContractParams, base: &ProvingSchemeBase, prover_key_hash: &Vec<u8>)
    ensures
        lines_view(final(out).lines@) == lines_view(old(out).lines@) + header_lines(*p, *base, prover_key_hash@),
{
    let ghost start = lines_view(out.lines@);
    let mut l = String::from_str("pragma solidity ");
    l.append(p.solc_version.as_str());
    l.append(";");
    out.push(l);
    let mut l = String::from_str("import { Pairing, G1Point as G1, G2Point as G2 } from \"");
    l.append(base.verify_libs_contract_filename.as_str());
    l.append("\";");
    out.push(l);
    let mut l = String::from_str("contract ");
    l.append(p.verification_contract_name.as_str());
    l.append(" {");
    out.push(l);
    out.push_str("using Pairing for G1;");
    out.push_str("using Pairing for G2;");
    let mut l = String::from_str("bytes32 public constant ");
    l.append(p.prover_key_hash_name.as_str());
    l.append(" = 0x");
    let h = hex_string(prover_key_hash);
    l.append(h.as_str());
    l.append(";");
    out.push(l);
    let mut l = String::from_str("uint256 constant ");
    l.append(base.snark_scalar_field_var_name.as_str());
    l.append(" = ");
    l.append("21888242871839275222246405745257275088548364400416034343698204186575808495617");
    l.append(";");
    out.push(l);
    out.push_str("struct Proof {");
    out.push_str("G1 a;");
    out.push_str("G2 b;");
    out.push_str("G1 c;");
    out.push_str("}");
    out.push_str("struct Vk {");
    proof {
        assert(lines_view(out.lines@) =~= start + header_lines(*p, *base, prover_key_hash@));
    }
}

/// Appends the lines opening the verification function (see `verify_head_lines`).
pub fn push_verify_head_lines(out: &mut Lines, p: &VerificationContractParams, with_messages: bool)
    ensures
        lines_view(final(out).lines@) == lines_view(old(out).lines@) + verify_head_lines(*p, with_messages),
{
    let ghost start = lines_view(out.lines@);
    out.push_str("}");
    let mut l = String::from_str("function ");
    l.append(p.verification_function_name.as_str());
    l.append("(uint[8] memory proof_, uint[] memory ");
    l.append(p.zk_in_name.as_str());
    l.append(", uint[] memory ");
    l.append(p.zk_out_name.as_str());
    l.append(") public {");
    out.push(l);
    out.push_str("// Check if input size correct");
    let mut l = String::from_str("require(");
    l.append(p.zk_in_name.as_str());
    l.append(".length == ");
    let d = decimal_string(p.in_size_trans as u64);
    l.append(d.as_str());
    if with_messages {
        l.append(", \"Wrong public input length\");");
    } else {
        l.append(");");
    }
    out.push(l);
    out.push_str("// Check if output size correct");
    let mut l = String::from_str("require(");
    l.append(p.zk_out_name.as_str());
    l.append(".length == ");
    let d = decimal_string(p.out_size_trans as u64);
    l.append(d.as_str());
    if with_messages {
        l.append(", \"Wrong public output length\");");
    } else {
        l.append(");");
    }
    out.push(l);
    proof {
        assert(lines_view(out.lines@) =~= start + verify_head_lines(*p, with_messages));
    }
}

/// Appends the lines of the body of the verification function (see `verify_body_lines`).
pub fn push_verify_body_lines(
    out: &mut Lines,
    p: &VerificationContractParams,
    base: &ProvingSchemeBase,
    vec: &str,
    pis: &Vec<String>,
)
    requires
        pis.len() > 0,
    ensures
        lines_view(final(out).lines@) == lines_view(old(out).lines@) + verify_body_lines(*p, *base, vec@, pis@),
{
    let ghost start = lines_view(out.lines@);
    let mut checks = Lines::new();
    push_overflow_lines(&mut checks, pis, &base.hash_var_name, &base.snark_scalar_field_var_name);
    let ghost ov = overflow_lines(pis@, base.hash_var_name@, base.snark_scalar_field_var_name@);
    proof {
        assert(lines_view(checks.lines@) =~= ov);
    }
    if checks.lines.len() > 0 {
        out.push_str("// Check that inputs do not overflow");
        let mut i: usize = 0;
        let ghost mid = lines_view(out.lines@);
        while i < checks.lines.len()
            invariant
                i <= checks.lines.len(),
                lines_view(out.lines@) == mid + lines_view(checks.lines@).subrange(0, i as int),
            decreases checks.lines.len() - i,
        {
            out.push(checks.lines[i].clone());
            i = i + 1;
            proof {
                assert(lines_view(out.lines@) =~= mid + lines_view(checks.lines@).subrange(0, i as int));
            }
        }
        proof {
            assert(lines_view(checks.lines@).subrange(0, i as int) =~= lines_view(checks.lines@));
        }
    }
    let ghost after_ov = lines_view(out.lines@);
    out.push_str("// Create proof and vk data structures");
    out.push_str("Proof memory proof;");
    out.push_str("proof.a = G1(proof_[0], proof_[1]);");
    out.push_str("proof.b = G2([proof_[2], proof_[3]], [proof_[4], proof_[5]]);");
    out.push_str("proof.c = G1(proof_[6], proof_[7]);");
    out.push_str("Vk memory vk = getVk();");
    out.push_str("// Compute linear combination of public inputs");
    if p.should_use_hash {
        let mut l = String::from_str("uint256 ");
        l.append(base.hash_var_name.as_str());
        l.append(" = uint256(sha256(abi.encodePacked(");
        l.append(p.zk_in_name.as_str());
        l.append(", ");
        l.append(p.zk_out_name.as_str());
        l.append(")) >> 2);");
        out.push(l);
    }
    let mut l = String::from_str("G1 memory lc = ");
    let t = lc_term_exec(vec, 1, &pis[0]);
    l.append(t.as_str());
    l.append(";");
    out.push(l);
    let ghost before_add = lines_view(out.lines@);
    push_lc_add_lines(out, vec, pis);
    let mut l = String::from_str("lc = lc.add(vk.");
    l.append(vec);
    l.append("[0]);");
    out.push(l);
    out.push_str("// Verify proof");
    proof {
        assert(lines_view(out.lines@) =~= start + verify_body_lines(*p, *base, vec@, pis@));
    }
}

} // verus!
