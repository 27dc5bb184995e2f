use zkay::circuit_generator::{join_path_exec, CircuitGenerationError, CircuitGeneratorBase, CircuitSummary, KeygenProgress};
use zkay::gm17::{ProvingSchemeGm17, VerifyingKey as Gm17Key};
use zkay::groth16::{ProvingSchemeGroth16, VerifyingKey as Groth16Key};
use zkay::name_factory::{BaseNameFactory, CryptoSizes, HybridArgType, NameFactory};
use zkay::proving_scheme::{G1Point, G2Point, ProvingScheme, VerificationContractParams, VerifyingKeyMeta};
use zkay::field::is_literal;
use zkay::text;
use zkay::types::TypeName;

fn summary(name: &str, rv: bool, external: bool, effects: bool) -> CircuitSummary {
    CircuitSummary {
        requires_verification: rv,
        can_be_external: external,
        has_side_effects: effects,
        verification_contract_name: name.to_string(),
        verifier_contract_filename: format!("{name}.sol"),
        public_arg_arrays: vec![("zk__in".to_string(), 2), ("zk__out".to_string(), 1)],
        should_use_hash: false,
    }
}

fn generator(cpus: usize) -> CircuitGeneratorBase {
    let circuits = vec![
        summary("Verify_f", true, true, true),
        summary("Verify_g", true, false, true),
        summary("Verify_h", true, true, true),
    ];
    CircuitGeneratorBase::with_cpus(
        circuits,
        "hash".to_string(),
        "out".to_string(),
        true,
        vec!["verification.key".to_string(), "proving.key".to_string()],
        cpus,
    )
}

#[test]
fn circuits_to_prove_are_external_with_side_effects() {
    let g = generator(8);
    assert_eq!(g.circuits_to_prove, vec![0, 2]);
    assert_eq!(g.p_count, 2);
    assert_eq!(generator(1).p_count, 1);
}

#[test]
fn new_uses_at_least_one_process() {
    let g = CircuitGeneratorBase::new(vec![summary("Verify_f", true, true, true)], "hash".to_string(), "out".to_string(), false, Vec::new());
    assert_eq!(g.p_count, 1);
    let none = CircuitGeneratorBase::new(vec![summary("Verify_f", false, true, true)], "hash".to_string(), "out".to_string(), false, Vec::new());
    assert_eq!(none.p_count, 0);
    assert!(none.circuits_to_prove.is_empty());
}

#[test]
fn key_paths_and_output_dirs() {
    let g = generator(4);
    assert_eq!(g._get_circuit_output_dir(0), "out/Verify_f_out");
    assert_eq!(g._get_vk_and_pk_paths(2), vec!["out/Verify_h_out/verification.key".to_string(), "out/Verify_h_out/proving.key".to_string()]);
    assert_eq!(
        g.get_all_key_paths(),
        vec![
            "out/Verify_f_out/verification.key".to_string(),
            "out/Verify_f_out/proving.key".to_string(),
            "out/Verify_h_out/verification.key".to_string(),
            "out/Verify_h_out/proving.key".to_string(),
        ]
    );
    assert_eq!(g.get_verification_contract_filenames(), vec!["out/Verify_f.sol".to_string(), "out/Verify_h.sol".to_string()]);
}

#[test]
fn join_path_cases() {
    assert_eq!(join_path_exec(&"a".to_string(), &"b".to_string()), "a/b");
    assert_eq!(join_path_exec(&"a/".to_string(), &"b".to_string()), "a/b");
    assert_eq!(join_path_exec(&"".to_string(), &"b".to_string()), "b");
    assert_eq!(join_path_exec(&"a".to_string(), &"/b".to_string()), "/b");
}

#[test]
fn primary_inputs_index_each_array() {
    let g = generator(4);
    assert_eq!(g._get_primary_inputs(0), vec!["zk__in[0]".to_string(), "zk__in[1]".to_string(), "zk__out[0]".to_string()]);
    let mut hashed = summary("Verify_f", true, true, true);
    hashed.should_use_hash = true;
    let h = CircuitGeneratorBase::with_cpus(vec![hashed], "hash".to_string(), "out".to_string(), false, Vec::new(), 1);
    assert_eq!(h._get_primary_inputs(0), vec!["hash".to_string()]);
}

#[test]
fn keys_are_generated_for_modified_or_missing() {
    let g = generator(4);
    assert_eq!(g.generate_circuits(false, &vec![false, true], &vec![true, true]).unwrap(), vec![1]);
    assert_eq!(g.generate_circuits(false, &vec![false, false], &vec![false, true]).unwrap(), vec![0]);
    assert_eq!(g.generate_circuits(false, &vec![false, false], &vec![true, true]).unwrap(), Vec::<usize>::new());
    assert_eq!(g.keys_to_generate(&vec![true, true], &vec![true, true]), vec![0, 1]);
}

#[test]
fn importing_keys_needs_all_of_them() {
    let g = generator(4);
    assert_eq!(g.generate_circuits(true, &vec![true, true], &vec![true, true]).unwrap(), Vec::<usize>::new());
    assert_eq!(g.generate_circuits(true, &vec![false, false], &vec![true, false]).unwrap_err(), CircuitGenerationError::MissingKeys);
    assert!(CircuitGeneratorBase::all_keys_present(&vec![]));
    assert!(!CircuitGeneratorBase::all_keys_present(&vec![true, false]));
}

#[test]
fn base_backend_defaults() {
    let g = generator(4);
    assert!(!g._generate_zkcircuit(false, 0));
    assert!(g._get_prover_key_hash(0).is_empty());
    assert_eq!(g.get_vk_and_pk_filenames(), vec!["verification.key".to_string(), "proving.key".to_string()]);
}

#[test]
fn keygen_progress_counts() {
    let mut p = KeygenProgress::__init_worker(0, 3);
    p.finish_one();
    p.finish_one();
    assert_eq!(p.finished, 2);
    assert_eq!(p.total, 3);
}

#[test]
fn points_print_as_solidity_arguments() {
    let p = G1Point::new("1".to_string(), "2".to_string());
    assert_eq!(p.to_string(), "uint256(1), uint256(2)");
    let z = G1Point::default();
    assert_eq!(z.to_string(), "uint256(0), uint256(0)");
    assert_eq!(
        p.negated().to_string(),
        "uint256(1), uint256(0x30644e72e131a029b85045b68181585d97816a916871ca8d3c208c16d87cfd45)"
    );
    assert_eq!(z.negated().to_string(), "uint256(0), uint256(0)");
    let q = G2Point::new("1".to_string(), "2".to_string(), "3".to_string(), "4".to_string());
    assert_eq!(q.to_string(), "[uint256(1), uint256(2)], [uint256(3), uint256(4)]");
    let s = G1Point::from_seq(&vec!["5".to_string(), "6".to_string()]);
    assert_eq!(s.to_string(), "uint256(5), uint256(6)");
    let items = vec!["a".to_string(), "b".to_string(), "c".to_string(), "d".to_string(), "e".to_string()];
    let mut pos = 1;
    let r = G2Point::from_it(&items, &mut pos);
    assert_eq!(pos, 5);
    assert_eq!(r.to_string(), "[uint256(b), uint256(c)], [uint256(d), uint256(e)]");
    let mut pos1 = 0;
    let g = G1Point::from_it(&items, &mut pos1);
    assert_eq!(pos1, 2);
    assert_eq!(g.x, "a");
}

fn params() -> VerificationContractParams {
    VerificationContractParams {
        solc_version: "^0.8.0".to_string(),
        verification_contract_name: "Verify_f".to_string(),
        prover_key_hash_name: "zk__prover_key_hash".to_string(),
        verification_function_name: "verify".to_string(),
        zk_in_name: "zk__in".to_string(),
        zk_out_name: "zk__out".to_string(),
        in_size_trans: 2,
        out_size_trans: 1,
        should_use_hash: false,
    }
}

#[test]
fn gm17_contract_text() {
    let scheme = ProvingSchemeGm17::new();
    assert_eq!(scheme.name(), "gm17");
    assert_eq!(scheme.hash_var_name(), "hash");
    let mut vk = Gm17Key::create_dummy_key();
    vk.query.push(G1Point::default());
    let inputs = vec!["zk__in[0]".to_string(), "1".to_string()];
    let text = scheme.generate_verification_contract(&vk, &params(), &inputs, &vec![0xab, 0x01]);
    let lines: Vec<&str> = text.lines().collect();
    assert_eq!(lines[0], "pragma solidity ^0.8.0;");
    assert_eq!(lines[1], "import { Pairing, G1Point as G1, G2Point as G2 } from \"./verify_libs.sol\";");
    assert_eq!(lines[2], "contract Verify_f {");
    assert_eq!(lines[5], "bytes32 public constant zk__prover_key_hash = 0xab01;");
    assert!(text.contains("G1[3] query;\n"));
    assert!(text.contains("vk.query[2] = G1(uint256(0), uint256(0));\n"));
    assert!(text.contains("require(zk__in.length == 2, \"Wrong public input length\");\n"));
    assert!(text.contains("require(zk__in[0] < snark_scalar_field);\n"));
    assert!(!text.contains("require(1 < snark_scalar_field);"));
    assert!(text.contains("G1 memory lc = vk.query[1].scalar_mul(zk__in[0]);\n"));
    assert!(text.contains("lc = lc.add(vk.query[2]);\n"));
    assert!(text.contains("lc = lc.add(vk.query[0]);\n"));
    assert!(text.ends_with("}\n}\n"));
}

#[test]
fn groth16_contract_text() {
    let scheme = ProvingSchemeGroth16::new();
    assert_eq!(scheme.name(), "groth16");
    let vk = Groth16Key::create_dummy_key();
    let mut p = params();
    p.should_use_hash = true;
    let inputs = vec!["hash".to_string()];
    let text = scheme.generate_verification_contract(&vk, &p, &inputs, &vec![]);
    assert!(text.contains("bytes32 public constant zk__prover_key_hash = 0x;\n"));
    assert!(text.contains("uint256 hash = uint256(sha256(abi.encodePacked(zk__in, zk__out)) >> 2);\n"));
    assert!(!text.contains("// Check that inputs do not overflow"));
    assert!(text.contains("G1 memory lc = vk.gamma_abc[1].scalar_mul(hash);\n"));
}

#[test]
fn base_name_factory_counts() {
    let mut f = BaseNameFactory::new("zk__in".to_string());
    assert_eq!(f.get_new_name(&TypeName::Cipher, true), "zk__in0_cipher");
    assert_eq!(f.get_new_name(&TypeName::Key, false), "zk__in1_key");
    assert_eq!(f.get_new_name(&TypeName::Uint(256), true), "zk__in1_plain");
    assert_eq!(f.get_new_name(&TypeName::Randomness, true), "zk__in2_rnd");
    assert_eq!(f.count, 3);
}

#[test]
fn fresh_names_differ_for_every_count() {
    let mut f = BaseNameFactory::new("tmp".to_string());
    let mut seen: Vec<String> = Vec::new();
    for _ in 0..25 {
        let n = f.get_new_name(&TypeName::Bool, true);
        assert!(!seen.contains(&n));
        seen.push(n);
    }
}

#[test]
fn name_factory_tracks_sizes() {
    let sizes = CryptoSizes { cipher_len: 3, key_len: 2, randomness_len: 1 };
    let mut f = NameFactory::new("zk__out".to_string(), HybridArgType::PubCircuitArg, sizes);
    let a = f.get_new_idf(&TypeName::Cipher, None);
    assert_eq!(a.name, "zk__out0_cipher");
    assert_eq!(a.arg_type, HybridArgType::PubCircuitArg);
    let b = f.get_new_idf(&TypeName::Uint(8), None);
    assert_eq!(b.name, "zk__out1_plain");
    let c = f.add_idf("given".to_string(), &TypeName::Key, None);
    assert_eq!(c.name, "given");
    assert_eq!(f.size, 6);
    assert_eq!(f.idfs, vec!["zk__out0_cipher".to_string(), "zk__out1_plain".to_string(), "given".to_string()]);
    assert_eq!(f.base_name_factory.count, 3);
}

#[test]
fn numerals_and_text() {
    assert_eq!(text::decimal_string(0), "0");
    assert_eq!(text::decimal_string(1234567890), "1234567890");
    assert_eq!(text::decimal_string(u64::MAX), u64::MAX.to_string());
    assert_eq!(text::hex_string(&vec![0x00, 0x0f, 0xa0, 0xff]), "000fa0ff");
    assert_eq!(text::hex_string(&vec![]), "");
    assert_eq!(text::concat(&"ab".to_string(), &"cd".to_string()), "abcd");
    assert_eq!(text::concat_str(&"ab".to_string(), "x"), "abx");
}


#[test]
fn negation_reads_every_literal_base_and_reduces_modulo_the_prime() {
    let q = "21888242871839275222246405745257275088696311157297823662689037894645226208583";
    let neg = |y: &str| G1Point::new("7".to_string(), y.to_string()).negated().y;
    assert_eq!(neg("2"), "0x30644e72e131a029b85045b68181585d97816a916871ca8d3c208c16d87cfd45");
    assert_eq!(neg("0x2"), "0x30644e72e131a029b85045b68181585d97816a916871ca8d3c208c16d87cfd45");
    assert_eq!(neg("0B10"), "0x30644e72e131a029b85045b68181585d97816a916871ca8d3c208c16d87cfd45");
    assert_eq!(neg("0o2"), "0x30644e72e131a029b85045b68181585d97816a916871ca8d3c208c16d87cfd45");
    assert_eq!(neg("0"), "0x30644e72e131a029b85045b68181585d97816a916871ca8d3c208c16d87cfd47");
    assert_eq!(neg(q), "0x30644e72e131a029b85045b68181585d97816a916871ca8d3c208c16d87cfd47");
    assert_eq!(neg("21888242871839275222246405745257275088696311157297823662689037894645226208582"), "0x1");
    assert_eq!(neg("0x30644E72E131A029B85045B68181585D97816A916871CA8D3C208C16D87CFD48"), "0x30644e72e131a029b85045b68181585d97816a916871ca8d3c208c16d87cfd46");
    let p = G1Point::new("1".to_string(), "007".to_string());
    assert!(!p.can_negate());
    assert!(!G1Point::new("1".to_string(), "0x".to_string()).can_negate());
    assert!(!G1Point::new("1".to_string(), "12a".to_string()).can_negate());
    assert!(G1Point::new("0".to_string(), "0".to_string()).can_negate());
    assert!(G1Point::new("1".to_string(), "000".to_string()).can_negate());
    assert!(is_literal(&"0xfF".to_string()));
}
