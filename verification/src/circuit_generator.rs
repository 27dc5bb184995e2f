//! The decisions of a circuit generator: which circuits need a proof, how
//! many processes generate keys, where keys and verification contracts are
//! written, and which public inputs a verification contract reads.
use vstd::prelude::*;
use vstd::string::StringExecFns;
use crate::text::{decimal, decimal_string};

verus! {

/// What a circuit generator needs to know of the circuit of one function.
pub struct CircuitSummary {
    /// The function needs verification.
    pub requires_verification: bool,
    /// The function can be called by a transaction.
    pub can_be_external: bool,
    pub has_side_effects: bool,
    pub verification_contract_name: String,
    pub verifier_contract_filename: String,
    /// The names and lengths of the public argument arrays.
    pub public_arg_arrays: Vec<(String, usize)>,
    /// The public inputs are hashed into one value.
    pub should_use_hash: bool,
}

/// A circuit needs a proof when its function needs verification, can be
/// called by a transaction and has side effects.
pub open spec fn needs_proof(c: CircuitSummary) -> bool {
    c.requires_verification && c.can_be_external && c.has_side_effects
}

/// The indices of the circuits that need a proof, in order.
pub open spec fn proved_indices(cs: Seq<CircuitSummary>) -> Seq<usize>
    decreases cs.len(),
{
    if cs.len() == 0 {
        seq![]
    } else {
        let prev = proved_indices(cs.drop_last());
        if needs_proof(cs.last()) {
            prev.push((cs.len() - 1) as usize)
        } else {
            prev
        }
    }
}

/// `a` joined with `b` as paths: `b` if it is absolute or `a` is empty,
/// else `a`, a separator where `a` has none at its end, and `b`.
pub open spec fn join_path(a: Seq<char>, b: Seq<char>) -> Seq<char> {
    if b.len() > 0 && b[0] == '/' {
        b
    } else if a.len() == 0 {
        b
    } else if a.last() == '/' {
        a + b
    } else {
        a + seq!['/'] + b
    }
}

/// The name of the output directory of the circuit with the given
/// verification contract name.
pub open spec fn circuit_output_dir_name(name: Seq<char>) -> Seq<char> {
    name + seq!['_', 'o', 'u', 't']
}

/// The public inputs `name[0]` to `name[count - 1]`.
pub open spec fn indexed_names(name: Seq<char>, count: nat) -> Seq<Seq<char>>
    decreases count,
{
    if count == 0 {
        seq![]
    } else {
        indexed_names(name, (count - 1) as nat).push(name + seq!['['] + decimal((count - 1) as nat) + seq![']'])
    }
}

/// The public inputs of all arrays, in order.
pub open spec fn array_inputs(arrays: Seq<(String, usize)>) -> Seq<Seq<char>>
    decreases arrays.len(),
{
    if arrays.len() == 0 {
        seq![]
    } else {
        array_inputs(arrays.drop_last()) + indexed_names(arrays.last().0@, arrays.last().1 as nat)
    }
}

/// The positions below `n` of the circuits that were modified or miss a key file.
pub open spec fn key_positions(modified: Seq<bool>, present: Seq<bool>, n: nat) -> Seq<usize>
    decreases n,
{
    if n == 0 {
        seq![]
    } else {
        let prev = key_positions(modified, present, (n - 1) as nat);
        if modified[n - 1] || !present[n - 1] {
            prev.push((n - 1) as usize)
        } else {
            prev
        }
    }
}

/// The number of processors of the machine (at least 1).
#[verifier::external_body]
fn available_cpus() -> (r: usize)
    ensures
        r >= 1,
{
    num_cpus::get()
}

/// The path `a` joined with `b` (see `join_path`).
pub fn join_path_exec(a: &String, b: &String) -> (r: String)
    ensures
        r@ == join_path(a@, b@),
{
    let blen = b.as_str().unicode_len();
    let babs = blen > 0 && b.as_str().get_char(0) == '/';
    if babs {
        return b.clone();
    }
    let alen = a.as_str().unicode_len();
    if alen == 0 {
        return b.clone();
    }
    let mut s = a.clone();
    if a.as_str().get_char(alen - 1) != '/' {
        s.append("/");
        proof {
            reveal_strlit("/");
        }
    }
    s.append(b.as_str());
    proof {
        if a@.last() != '/' {
            assert(s@ =~= a@ + seq!['/'] + b@);
        }
    }
    s
}

/// Progress of key generation run by several workers.
pub struct KeygenProgress {
    pub finished: u64,
    pub total: u64,
}

impl KeygenProgress {
    /// A worker's view of the progress: `counter` keys generated of `total_count`.
    pub fn __init_worker(counter: u64, total_count: u64) -> (r: KeygenProgress)
        ensures
            r.finished == counter,
            r.total == total_count,
    {
        KeygenProgress { finished: counter, total: total_count }
    }

    /// One more circuit has its keys.
    pub fn finish_one(&mut self)
        ensures
            final(self).finished == old(self).finished.wrapping_add(1),
            final(self).total == old(self).total,
    {
        self.finished = self.finished.wrapping_add(1);
    }
}

/// Why generating the circuits of a contract fails.
#[derive(PartialEq, Eq, Structural, Clone, Copy, Debug)]
pub enum CircuitGenerationError {
    /// Keys were to be imported, but a key file is missing.
    MissingKeys,
}

/// A circuit generator: the circuits of a contract, those that need a
/// proof, and where its output goes.
pub struct CircuitGeneratorBase {
    pub circuits: Vec<CircuitSummary>,
    /// Indices into `circuits` of the circuits that need a proof.
    pub circuits_to_prove: Vec<usize>,
    /// The variable holding the hash of the public inputs.
    pub hash_var_name: String,
    pub output_dir: String,
    pub parallel_keygen: bool,
    /// The number of processes that generate keys.
    pub p_count: usize,
    /// The names of the verification and prover key files of the backend.
    pub vk_and_pk_filenames: Vec<String>,
}

impl CircuitGeneratorBase {
    /// A generator for the given circuits that uses at most `cpus` processes.
    pub fn with_cpus(
        circuits: Vec<CircuitSummary>,
        hash_var_name: String,
        output_dir: String,
        parallel_keygen: bool,
        vk_and_pk_filenames: Vec<String>,
        cpus: usize,
    ) -> (r: CircuitGeneratorBase)
        ensures
            r.circuits@ == circuits@,
            r.circuits_to_prove@ == proved_indices(circuits@),
            r.p_count == if r.circuits_to_prove.len() < cpus { r.circuits_to_prove.len() } else { cpus },
            r.hash_var_name == hash_var_name,
            r.output_dir == output_dir,
            r.parallel_keygen == parallel_keygen,
            r.vk_and_pk_filenames == vk_and_pk_filenames,
            r.well_formed(),
    {
        let mut to_prove: Vec<usize> = Vec::new();
        let mut i: usize = 0;
        while i < circuits.len()
            invariant
                i <= circuits.len(),
                to_prove@ == proved_indices(circuits@.subrange(0, i as int)),
                forall|j: int| 0 <= j < to_prove.len() ==> #[trigger] to_prove@[j] < i,
            decreases circuits.len() - i,
        {
            let c = &circuits[i];
            proof {
                let sub = circuits@.subrange(0, i + 1);
                assert(sub.drop_last() =~= circuits@.subrange(0, i as int));
                assert(sub.last() == circuits@[i as int]);
            }
            if c.requires_verification && c.can_be_external && c.has_side_effects {
                to_prove.push(i);
            }
            i = i + 1;
        }
        proof {
            assert(circuits@.subrange(0, circuits.len() as int) =~= circuits@);
        }
        let n = to_prove.len();
        let p_count = if n < cpus { n } else { cpus };
        CircuitGeneratorBase {
            circuits,
            circuits_to_prove: to_prove,
            hash_var_name,
            output_dir,
            parallel_keygen,
            p_count,
            vk_and_pk_filenames,
        }
    }

    /// A generator for the given circuits; it uses at most as many processes
    /// as the machine has processors, and at least one where there is a
    /// circuit to prove.
    pub fn new(
        circuits: Vec<CircuitSummary>,
        hash_var_name: String,
        output_dir: String,
        parallel_keygen: bool,
        vk_and_pk_filenames: Vec<String>,
    ) -> (r: CircuitGeneratorBase)
        ensures
            r.circuits@ == circuits@,
            r.circuits_to_prove@ == proved_indices(circuits@),
            r.p_count <= r.circuits_to_prove.len(),
            r.circuits_to_prove.len() > 0 ==> r.p_count >= 1,
            r.hash_var_name == hash_var_name,
            r.output_dir == output_dir,
            r.parallel_keygen == parallel_keygen,
            r.vk_and_pk_filenames == vk_and_pk_filenames,
            r.well_formed(),
    {
        let cpus = available_cpus();
        Self::with_cpus(circuits, hash_var_name, output_dir, parallel_keygen, vk_and_pk_filenames, cpus)
    }

    /// The circuits to prove are indices of circuits.
    pub open spec fn well_formed(&self) -> bool {
        forall|i: int| 0 <= i < self.circuits_to_prove.len() ==> #[trigger] self.circuits_to_prove@[i] < self.circuits.len()
    }

    /// The names of the key files of the backend (none for the base generator).
    pub fn get_vk_and_pk_filenames(&self) -> (r: Vec<String>)
        ensures
            r@ == self.vk_and_pk_filenames@,
    {
        let mut r: Vec<String> = Vec::new();
        let mut i: usize = 0;
        while i < self.vk_and_pk_filenames.len()
            invariant
                i <= self.vk_and_pk_filenames.len(),
                r@ == self.vk_and_pk_filenames@.subrange(0, i as int),
            decreases self.vk_and_pk_filenames.len() - i,
        {
            r.push(self.vk_and_pk_filenames[i].clone());
            i = i + 1;
            proof {
                assert(r@ =~= self.vk_and_pk_filenames@.subrange(0, i as int));
            }
        }
        proof {
            assert(self.vk_and_pk_filenames@.subrange(0, i as int) =~= self.vk_and_pk_filenames@);
        }
        r
    }

    /// The output directory of circuit `i`.
    pub fn _get_circuit_output_dir(&self, i: usize) -> (r: String)
        requires
            i < self.circuits.len(),
        ensures
            r@ == join_path(self.output_dir@, circuit_output_dir_name(self.circuits@[i as int].verification_contract_name@)),
    {
        let mut name = self.circuits[i].verification_contract_name.clone();
        name.append("_out");
        proof {
            reveal_strlit("_out");
            assert(name@ =~= circuit_output_dir_name(self.circuits@[i as int].verification_contract_name@));
        }
        join_path_exec(&self.output_dir, &name)
    }

    /// The paths of the key files of circuit `i`.
    pub fn _get_vk_and_pk_paths(&self, i: usize) -> (r: Vec<String>)
        requires
            i < self.circuits.len(),
        ensures
            r.len() == self.vk_and_pk_filenames.len(),
            forall|k: int| 0 <= k < r.len() ==> (#[trigger] r@[k])@ == join_path(
                join_path(self.output_dir@, circuit_output_dir_name(self.circuits@[i as int].verification_contract_name@)),
                self.vk_and_pk_filenames@[k]@,
            ),
    {
        let dir = self._get_circuit_output_dir(i);
        let names = self.get_vk_and_pk_filenames();
        let mut r: Vec<String> = Vec::new();
        let mut k: usize = 0;
        while k < names.len()
            invariant
                k <= names.len(),
                names@ == self.vk_and_pk_filenames@,
                r.len() == k,
                forall|j: int| 0 <= j < k ==> (#[trigger] r@[j])@ == join_path(dir@, names@[j]@),
            decreases names.len() - k,
        {
            r.push(join_path_exec(&dir, &names[k]));
            k = k + 1;
        }
        r
    }

    /// The paths of the key files of all circuits to prove, circuit by circuit.
    pub fn get_all_key_paths(&self) -> (r: Vec<String>)
        requires
            self.well_formed(),
        ensures
            r.len() == self.circuits_to_prove.len() * self.vk_and_pk_filenames.len(),
            forall|c: int, k: int|
                0 <= c < self.circuits_to_prove.len() && 0 <= k < self.vk_and_pk_filenames.len() ==> (#[trigger] r@[c
                    * self.vk_and_pk_filenames.len() + k])@ == join_path(
                    join_path(
                        self.output_dir@,
                        circuit_output_dir_name(self.circuits@[self.circuits_to_prove@[c] as int].verification_contract_name@),
                    ),
                    self.vk_and_pk_filenames@[k]@,
                ),
    {
        let m = self.vk_and_pk_filenames.len();
        let mut r: Vec<String> = Vec::new();
        let mut c: usize = 0;
        while c < self.circuits_to_prove.len()
            invariant
                c <= self.circuits_to_prove.len(),
                self.well_formed(),
                m == self.vk_and_pk_filenames.len(),
                r.len() == c * m,
                forall|cc: int, k: int|
                    0 <= cc < c && 0 <= k < m ==> (#[trigger] r@[cc * m + k])@ == join_path(
                        join_path(
                            self.output_dir@,
                            circuit_output_dir_name(self.circuits@[self.circuits_to_prove@[cc] as int].verification_contract_name@),
                        ),
                        self.vk_and_pk_filenames@[k]@,
                    ),
            decreases self.circuits_to_prove.len() - c,
        {
            let idx = self.circuits_to_prove[c];
            proof {
                assert(self.circuits_to_prove@[c as int] < self.circuits.len());
            }
            let paths = self._get_vk_and_pk_paths(idx);
            let ghost before = r@;
            let mut k: usize = 0;
            while k < paths.len()
                invariant
                    k <= paths.len(),
                    paths.len() == m,
                    r.len() == c * m + k,
                    forall|j: int| 0 <= j < c * m ==> #[trigger] r@[j] == before[j],
                    before.len() == c * m,
                    forall|j: int| 0 <= j < k ==> #[trigger] r@[c * m + j] == paths@[j],
                decreases paths.len() - k,
            {
                r.push(paths[k].clone());
                k = k + 1;
            }
            proof {
                assert forall|cc: int, kk: int| 0 <= cc < c + 1 && 0 <= kk < m implies (#[trigger] r@[cc * m + kk])@ == join_path(
                    join_path(
                        self.output_dir@,
                        circuit_output_dir_name(self.circuits@[self.circuits_to_prove@[cc] as int].verification_contract_name@),
                    ),
                    self.vk_and_pk_filenames@[kk]@,
                ) by {
                    if cc < c {
                        assert(cc * m + kk < c * m) by (nonlinear_arith)
                            requires
                                cc < c,
                                kk < m,
                        ;
                        assert(r@[cc * m + kk] == before[cc * m + kk]);
                    } else {
                        assert(cc == c);
                        assert(r@[c * m + kk] == paths@[kk]);
                    }
                }
                assert((c + 1) * m == c * m + m) by (nonlinear_arith);
            }
            c = c + 1;
        }
        r
    }

    /// The paths of the verification contracts of the circuits to prove.
    pub fn get_verification_contract_filenames(&self) -> (r: Vec<String>)
        requires
            self.well_formed(),
        ensures
            r.len() == self.circuits_to_prove.len(),
            forall|c: int| 0 <= c < r.len() ==> (#[trigger] r@[c])@ == join_path(
                self.output_dir@,
                self.circuits@[self.circuits_to_prove@[c] as int].verifier_contract_filename@,
            ),
    {
        let mut r: Vec<String> = Vec::new();
        let mut c: usize = 0;
        while c < self.circuits_to_prove.len()
            invariant
                c <= self.circuits_to_prove.len(),
                self.well_formed(),
                r.len() == c,
                forall|j: int| 0 <= j < c ==> (#[trigger] r@[j])@ == join_path(
                    self.output_dir@,
                    self.circuits@[self.circuits_to_prove@[j] as int].verifier_contract_filename@,
                ),
            decreases self.circuits_to_prove.len() - c,
        {
            let idx = self.circuits_to_prove[c];
            proof {
                assert(self.circuits_to_prove@[c as int] < self.circuits.len());
            }
            r.push(join_path_exec(&self.output_dir, &self.circuits[idx].verifier_contract_filename));
            c = c + 1;
        }
        r
    }

    /// The public inputs of circuit `i`: the hash variable where the inputs
    /// are hashed, else every element of every public argument array.
    pub fn _get_primary_inputs(&self, i: usize) -> (r: Vec<String>)
        requires
            i < self.circuits.len(),
        ensures
            self.circuits@[i as int].should_use_hash ==> r.len() == 1 && r@[0]@ == self.hash_var_name@,
            !self.circuits@[i as int].should_use_hash ==> r@.map_values(|s: String| s@) == array_inputs(
                self.circuits@[i as int].public_arg_arrays@,
            ),
    {
        let c = &self.circuits[i];
        let mut r: Vec<String> = Vec::new();
        if c.should_use_hash {
            r.push(self.hash_var_name.clone());
            return r;
        }
        let arrays = &c.public_arg_arrays;
        let mut a: usize = 0;
        while a < arrays.len()
            invariant
                a <= arrays.len(),
                r@.map_values(|s: String| s@) == array_inputs(arrays@.subrange(0, a as int)),
            decreases arrays.len() - a,
        {
            let name = &arrays[a].0;
            let count = arrays[a].1;
            let ghost before = r@.map_values(|s: String| s@);
            let mut k: usize = 0;
            while k < count
                invariant
                    k <= count,
                    r@.map_values(|s: String| s@) == before + indexed_names(name@, k as nat),
                decreases count - k,
            {
                let mut s = name.clone();
                s.append("[");
                let d = decimal_string(k as u64);
                s.append(d.as_str());
                s.append("]");
                proof {
                    reveal_strlit("[");
                    reveal_strlit("]");
                }
                let ghost prev_r = r@;
                proof {
                    assert(s@ =~= name@ + seq!['['] + decimal(k as nat) + seq![']']);
                }
                r.push(s);
                k = k + 1;
                proof {
                    assert(r@ == prev_r.push(s));
                    assert(r@.map_values(|s: String| s@) =~= prev_r.map_values(|s: String| s@).push(s@));
                    assert(r@.map_values(|s: String| s@) =~= before + indexed_names(name@, k as nat));
                }
            }
            a = a + 1;
            proof {
                let sub = arrays@.subrange(0, a as int);
                assert(sub.drop_last() =~= arrays@.subrange(0, a - 1));
                assert(r@.map_values(|s: String| s@) =~= array_inputs(arrays@.subrange(0, a as int)));
            }
        }
        proof {
            assert(arrays@.subrange(0, arrays.len() as int) =~= arrays@);
        }
        r
    }

    /// The circuits to prove (positions in `circuits_to_prove`) whose keys must
    /// be generated: those that were modified or miss a key file.
    pub fn keys_to_generate(&self, modified: &Vec<bool>, keys_present: &Vec<bool>) -> (r: Vec<usize>)
        requires
            modified.len() == self.circuits_to_prove.len(),
            keys_present.len() == self.circuits_to_prove.len(),
        ensures
            r@ == key_positions(modified@, keys_present@, modified.len() as nat),
    {
        let mut r: Vec<usize> = Vec::new();
        let mut p: usize = 0;
        while p < modified.len()
            invariant
                p <= modified.len(),
                modified.len() == keys_present.len(),
                r@ == key_positions(modified@, keys_present@, p as nat),
            decreases modified.len() - p,
        {
            if modified[p] || !keys_present[p] {
                r.push(p);
            }
            p = p + 1;
        }
        r
    }

    /// All key files exist, as importing keys requires.
    pub fn all_keys_present(keys_present: &Vec<bool>) -> (r: bool)
        ensures
            r == forall|p: int| 0 <= p < keys_present.len() ==> keys_present@[p],
    {
        let mut p: usize = 0;
        while p < keys_present.len()
            invariant
                p <= keys_present.len(),
                forall|q: int| 0 <= q < p ==> keys_present@[q],
            decreases keys_present.len() - p,
        {
            if !keys_present[p] {
                return false;
            }
            p = p + 1;
        }
        true
    }

    /// What generating the circuits does once they are compiled: with
    /// `import_keys`, nothing more where every key file is present (else the
    /// import fails); otherwise, generate the keys of the circuits (positions
    /// in `circuits_to_prove`) that were modified or miss a key file, in order.
    /// `modified` and `keys_present` say, for each circuit to prove, whether
    /// compiling it changed it and whether all its key files exist.
    pub fn generate_circuits(&self, import_keys: bool, modified: &Vec<bool>, keys_present: &Vec<bool>) -> (r: Result<
        Vec<usize>,
        CircuitGenerationError,
    >)
        requires
            modified.len() == self.circuits_to_prove.len(),
            keys_present.len() == self.circuits_to_prove.len(),
        ensures
            import_keys ==> (r is Ok <==> forall|p: int| 0 <= p < keys_present.len() ==> keys_present@[p]),
            import_keys ==> (r matches Ok(v) ==> v@.len() == 0),
            r is Err ==> r == Err::<Vec<usize>, CircuitGenerationError>(CircuitGenerationError::MissingKeys),
            !import_keys ==> (r matches Ok(v) && v@ == key_positions(modified@, keys_present@, modified.len() as nat)),
    {
        if import_keys {
            if Self::all_keys_present(keys_present) {
                Ok(Vec::new())
            } else {
                Err(CircuitGenerationError::MissingKeys)
            }
        } else {
            Ok(self.keys_to_generate(modified, keys_present))
        }
    }

    /// The base generator compiles no circuit: nothing is modified.
    pub fn _generate_zkcircuit(&self, _import_keys: bool, _i: usize) -> (r: bool)
        ensures
            !r,
    {
        false
    }

    /// The base generator has no prover key: its hash is empty.
    pub fn _get_prover_key_hash(&self, _i: usize) -> (r: Vec<u8>)
        ensures
            r@.len() == 0,
    {
        Vec::new()
    }
}

} // verus!
