//! Dispatch Table Builder and Interface Emitter.
//!
//! The builder assigns each method a stable wire ordinal — its zero-based
//! declaration position, never a name or a hash — and describes, per
//! ordinal, which input record to decode and which output record to
//! encode. The emitter assembles the generated artifact: every synthesized
//! record, registered in the artifact's type namespace, plus the dispatch
//! table. Regenerating from the same service interface definition always
//! reproduces the same wire contract.

use vstd::prelude::*;

use crate::analyzer::{analyze, analyze_model};
use crate::error::{Error, ErrorKind, ErrorModel};
use crate::model::{MethodModel, ServiceDef, ServiceModel};
use crate::records::{
    clone_record, opt_record_view, synth_model, synthesize, RecordDef, RecordModel,
};

verus! {

/// One entry of the dispatch table: how the method at this ordinal is
/// decoded, invoked and answered.
pub struct DispatchArm {
    pub ordinal: u16,
    pub method_name: String,
    pub input_record: Option<RecordDef>,
    pub output_record: Option<RecordDef>,
}

/// Mathematical image of a [`DispatchArm`].
#[verifier::ext_equal]
pub struct ArmModel {
    pub ordinal: u16,
    pub method_name: Seq<char>,
    pub input_record: Option<RecordModel>,
    pub output_record: Option<RecordModel>,
}

impl View for DispatchArm {
    type V = ArmModel;

    open spec fn view(&self) -> ArmModel {
        ArmModel {
            ordinal: self.ordinal,
            method_name: self.method_name@,
            input_record: opt_record_view(self.input_record),
            output_record: opt_record_view(self.output_record),
        }
    }
}

/// The generated artifact of one service: every synthesized record, in
/// registration order, and the dispatch table, in declaration order.
pub struct Artifact {
    pub service_name: String,
    pub records: Vec<RecordDef>,
    pub arms: Vec<DispatchArm>,
}

/// Mathematical image of an [`Artifact`].
#[verifier::ext_equal]
pub struct ArtifactModel {
    pub service_name: Seq<char>,
    pub records: Seq<RecordModel>,
    pub arms: Seq<ArmModel>,
}

impl View for Artifact {
    type V = ArtifactModel;

    open spec fn view(&self) -> ArtifactModel {
        ArtifactModel {
            service_name: self.service_name@,
            records: records_view(self.records@),
            arms: arms_view(self.arms@),
        }
    }
}

/// Image of a record list.
pub open spec fn records_view(rs: Seq<RecordDef>) -> Seq<RecordModel> {
    rs.map_values(|r: RecordDef| r@)
}

/// Image of an owner list.
pub open spec fn owners_view(os: Seq<String>) -> Seq<Seq<char>> {
    os.map_values(|s: String| s@)
}

/// Image of a dispatch table.
pub open spec fn arms_view(arms: Seq<DispatchArm>) -> Seq<ArmModel> {
    arms.map_values(|a: DispatchArm| a@)
}

/// The generator's intermediate state: the records registered so far, the
/// method owning each, and the arms built so far.
#[verifier::ext_equal]
pub struct GenState {
    pub records: Seq<RecordModel>,
    pub owners: Seq<Seq<char>>,
    pub arms: Seq<ArmModel>,
}

/// The state before any method is processed.
pub open spec fn empty_state() -> GenState {
    GenState { records: Seq::empty(), owners: Seq::empty(), arms: Seq::empty() }
}

/// Position of the first registered record at or after `k` carrying
/// `name`, if any.
pub open spec fn find_record_from(records: Seq<RecordModel>, name: Seq<char>, k: int) -> Option<
    int,
>
    decreases records.len() - k,
{
    if k < 0 || k >= records.len() {
        None
    } else if records[k].name == name {
        Some(k)
    } else {
        find_record_from(records, name, k + 1)
    }
}

/// Registering one record into the type namespace: a collision with an
/// already registered name is fatal, reported with both method names.
pub open spec fn register_model(
    records: Seq<RecordModel>,
    owners: Seq<Seq<char>>,
    owner: Seq<char>,
    rec: RecordModel,
) -> Result<(Seq<RecordModel>, Seq<Seq<char>>), ErrorModel> {
    match find_record_from(records, rec.name, 0) {
        Some(k) => Err(
            ErrorModel {
                kind: ErrorKind::DuplicateTypeName,
                method: owner,
                other_method: owners[k],
                name: rec.name,
                position: k,
            },
        ),
        None => Ok((records.push(rec), owners.push(owner))),
    }
}

/// Registers an optional record: nothing to do when there is none.
pub open spec fn register_opt_model(
    records: Seq<RecordModel>,
    owners: Seq<Seq<char>>,
    owner: Seq<char>,
    orec: Option<RecordModel>,
) -> Result<(Seq<RecordModel>, Seq<Seq<char>>), ErrorModel> {
    match orec {
        None => Ok((records, owners)),
        Some(r) => register_model(records, owners, owner, r),
    }
}

/// Processing one method at ordinal `ord`: analyze it, synthesize its
/// records, register them — input record first — and append its arm.
pub open spec fn step_model(st: GenState, m: MethodModel, ord: u16) -> Result<
    GenState,
    ErrorModel,
> {
    match analyze_model(m) {
        Err(e) => Err(e),
        Ok(_a) => match synth_model(m) {
            Err(e) => Err(e),
            Ok(recs) => match register_opt_model(st.records, st.owners, m.name, recs.0) {
                Err(e) => Err(e),
                Ok(ro1) => match register_opt_model(ro1.0, ro1.1, m.name, recs.1) {
                    Err(e) => Err(e),
                    Ok(ro2) => Ok(
                        GenState {
                            records: ro2.0,
                            owners: ro2.1,
                            arms: st.arms.push(
                                ArmModel {
                                    ordinal: ord,
                                    method_name: m.name,
                                    input_record: recs.0,
                                    output_record: recs.1,
                                },
                            ),
                        },
                    ),
                },
            },
        },
    }
}

/// The generator's state after the first `n` methods, or the first error.
/// Ordinal assignment is purely positional: the method at index `i`
/// always gets ordinal `i`.
pub open spec fn gen_prefix(methods: Seq<MethodModel>, n: int) -> Result<GenState, ErrorModel>
    decreases n,
{
    if n <= 0 {
        Ok(empty_state())
    } else {
        match gen_prefix(methods, n - 1) {
            Err(e) => Err(e),
            Ok(st) => step_model(st, methods[n - 1], (n - 1) as u16),
        }
    }
}

/// What generating a whole service yields: the artifact, or the first
/// generation error. A pure function of the service interface definition.
pub open spec fn generate_model(s: ServiceModel) -> Result<ArtifactModel, ErrorModel> {
    match gen_prefix(s.methods, s.methods.len() as int) {
        Err(e) => Err(e),
        Ok(st) => Ok(ArtifactModel { service_name: s.name, records: st.records, arms: st.arms }),
    }
}

/// Once generation has failed, every longer prefix fails the same way.
pub proof fn lemma_gen_prefix_error_stable(methods: Seq<MethodModel>, n1: int, n2: int)
    requires
        0 <= n1 <= n2,
        gen_prefix(methods, n1) is Err,
    ensures
        gen_prefix(methods, n2) == gen_prefix(methods, n1),
    decreases n2 - n1,
{
    if n2 > n1 {
        lemma_gen_prefix_error_stable(methods, n1, n2 - 1);
    }
}

/// Registers one record into the namespace held by `records` and
/// `owners`, or reports the collision.
fn register(records: &mut Vec<RecordDef>, owners: &mut Vec<String>, owner: &String, rec: RecordDef) -> (r: Result<(), Error>)
    requires
        old(records)@.len() == old(owners)@.len(),
    ensures
        records_view(final(records)@).len() == owners_view(final(owners)@).len(),
        match r {
            Ok(_) => register_model(
                records_view(old(records)@),
                owners_view(old(owners)@),
                owner@,
                rec@,
            ) == Ok::<_, ErrorModel>((records_view(final(records)@), owners_view(final(owners)@))),
            Err(e) => register_model(
                records_view(old(records)@),
                owners_view(old(owners)@),
                owner@,
                rec@,
            ) == Err::<(Seq<RecordModel>, Seq<Seq<char>>), _>(e@) && final(records)@ == old(
                records,
            )@ && final(owners)@ == old(owners)@,
        },
{
    let ghost rsm = records_view(records@);
    let n = records.len();
    let mut k: usize = 0;
    while k < n
        invariant
            k <= n,
            n == records@.len(),
            records@.len() == owners@.len(),
            records@ == old(records)@,
            owners@ == old(owners)@,
            rsm == records_view(records@),
            find_record_from(rsm, rec@.name, 0) == find_record_from(rsm, rec@.name, k as int),
        decreases n - k,
    {
        if records[k].name == rec.name {
            proof {
                assert(rsm[k as int] == records@[k as int]@);
                assert(find_record_from(rsm, rec@.name, k as int) == Some(k as int));
                assert(owners_view(owners@)[k as int] == owners@[k as int]@);
            }
            return Err(
                Error {
                    kind: ErrorKind::DuplicateTypeName,
                    method: owner.clone(),
                    other_method: owners[k].clone(),
                    name: rec.name.clone(),
                    position: k,
                },
            );
        }
        proof {
            assert(rsm[k as int] == records@[k as int]@);
            assert(find_record_from(rsm, rec@.name, k as int) == find_record_from(
                rsm,
                rec@.name,
                k as int + 1,
            ));
        }
        k += 1;
    }
    proof {
        assert(find_record_from(rsm, rec@.name, k as int) is None);
    }
    let ghost recm = rec@;
    let ghost ownerm = owner@;
    records.push(rec);
    owners.push(owner.clone());
    proof {
        assert(records_view(records@) =~= records_view(old(records)@).push(recm));
        assert(owners_view(owners@) =~= owners_view(old(owners)@).push(ownerm));
    }
    Ok(())
}

/// Interface Emitter: runs the whole pipeline — analyze, synthesize,
/// register, build arms — over one service interface definition and
/// assembles the generated artifact, or reports the first error.
pub fn generate(s: &ServiceDef) -> (r: Result<Artifact, Error>)
    requires
        s.methods@.len() <= 0x10000,
    ensures
        match r {
            Ok(a) => generate_model(s@) == Ok::<_, ErrorModel>(a@),
            Err(e) => generate_model(s@) == Err::<ArtifactModel, _>(e@),
        },
{
    let n = s.methods.len();
    let mut records: Vec<RecordDef> = Vec::new();
    let mut owners: Vec<String> = Vec::new();
    let mut arms: Vec<DispatchArm> = Vec::new();
    let mut i: usize = 0;
    proof {
        assert(GenState {
            records: records_view(records@),
            owners: owners_view(owners@),
            arms: arms_view(arms@),
        } =~= empty_state());
    }
    while i < n
        invariant
            i <= n,
            n == s.methods@.len(),
            n <= 0x10000,
            records@.len() == owners@.len(),
            gen_prefix(s@.methods, i as int) == Ok::<_, ErrorModel>(
                GenState {
                    records: records_view(records@),
                    owners: owners_view(owners@),
                    arms: arms_view(arms@),
                },
            ),
        decreases n - i,
    {
        let ghost st0 = GenState {
            records: records_view(records@),
            owners: owners_view(owners@),
            arms: arms_view(arms@),
        };
        let m = &s.methods[i];
        proof {
            assert(m@ == s@.methods[i as int]);
            assert(gen_prefix(s@.methods, i as int + 1) == match step_model(
                st0,
                s@.methods[i as int],
                i as u16,
            ) {
                Ok(st) => Ok::<GenState, ErrorModel>(st),
                Err(e) => Err::<GenState, ErrorModel>(e),
            });
        }
        let a = match analyze(m) {
            Ok(a) => a,
            Err(e) => {
                proof {
                    assert(step_model(st0, m@, i as u16) == Err::<GenState, _>(e@));
                    lemma_gen_prefix_error_stable(s@.methods, i as int + 1, n as int);
                }
                return Err(e);
            },
        };
        let recs = match synthesize(m, &a) {
            Ok(p) => p,
            Err(e) => {
                proof {
                    assert(step_model(st0, m@, i as u16) == Err::<GenState, _>(e@));
                    lemma_gen_prefix_error_stable(s@.methods, i as int + 1, n as int);
                }
                return Err(e);
            },
        };
        let (input_rec, output_rec) = recs;
        let ghost inm = opt_record_view(input_rec);
        let ghost outm = opt_record_view(output_rec);
        match &input_rec {
            Some(rec) => {
                match register(&mut records, &mut owners, &m.name, clone_record(rec)) {
                    Ok(_) => {},
                    Err(e) => {
                        proof {
                            assert(step_model(st0, m@, i as u16) == Err::<GenState, _>(e@));
                            lemma_gen_prefix_error_stable(s@.methods, i as int + 1, n as int);
                        }
                        return Err(e);
                    },
                }
            },
            None => {},
        }
        let ghost st1 = GenState {
            records: records_view(records@),
            owners: owners_view(owners@),
            arms: arms_view(arms@),
        };
        proof {
            assert(register_opt_model(st0.records, st0.owners, m@.name, inm) == Ok::<
                _,
                ErrorModel,
            >((st1.records, st1.owners)));
        }
        match &output_rec {
            Some(rec) => {
                match register(&mut records, &mut owners, &m.name, clone_record(rec)) {
                    Ok(_) => {},
                    Err(e) => {
                        proof {
                            assert(step_model(st0, m@, i as u16) == Err::<GenState, _>(e@));
                            lemma_gen_prefix_error_stable(s@.methods, i as int + 1, n as int);
                        }
                        return Err(e);
                    },
                }
            },
            None => {},
        }
        let ghost st2 = GenState {
            records: records_view(records@),
            owners: owners_view(owners@),
            arms: arms_view(arms@),
        };
        proof {
            assert(register_opt_model(st1.records, st1.owners, m@.name, outm) == Ok::<
                _,
                ErrorModel,
            >((st2.records, st2.owners)));
        }
        let arm = DispatchArm {
            ordinal: i as u16,
            method_name: m.name.clone(),
            input_record: input_rec,
            output_record: output_rec,
        };
        proof {
            assert(arm@ == ArmModel {
                ordinal: i as u16,
                method_name: m@.name,
                input_record: inm,
                output_record: outm,
            });
        }
        arms.push(arm);
        proof {
            assert(arms_view(arms@) =~= st0.arms.push(
                ArmModel {
                    ordinal: i as u16,
                    method_name: m@.name,
                    input_record: inm,
                    output_record: outm,
                },
            ));
            assert(step_model(st0, m@, i as u16) == Ok::<_, ErrorModel>(
                GenState {
                    records: records_view(records@),
                    owners: owners_view(owners@),
                    arms: arms_view(arms@),
                },
            ));
        }
        i += 1;
    }
    let art = Artifact { service_name: s.name.clone(), records, arms };
    proof {
        assert(s@.methods.len() == n as int);
        assert(generate_model(s@) == Ok::<_, ErrorModel>(art@));
    }
    Ok(art)
}

} // verus!
