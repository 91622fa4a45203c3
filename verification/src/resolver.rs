//! The cascade that completes a manifest for one region: implicit defaults,
//! the service's own override for the region, the region's defaults, secret
//! placeholders, and the namespace and location that the region names.
use vstd::prelude::*;
use crate::error::Error;
use crate::manifest::{gap_entries, gaps_filled, implicits_applied, same_base, Manifest};
use crate::secrets::{all_resolved, substitute, substitution, Resolution, Substituted};
use crate::text::{chars_of, pieces, split, split_on, string_of};
use crate::validation::names;
use crate::vault::Vault;

verus! {

/// How far a step of the resolution came.
#[derive(Clone, Debug)]
pub enum Progress {
    /// The step is complete.
    Done,
    /// The record at this path has to be fetched and stored; then the step is
    /// taken again.
    Fetch(String),
}

/// Whether `a` and `b` agree on every field but the environment.
pub open spec fn same_but_env(a: Manifest, b: Manifest) -> bool {
    &&& same_base(a, b)
    &&& a.image == b.image
    &&& a.configs == b.configs
    &&& a.volume_mounts == b.volume_mounts
    &&& a.init_containers == b.init_containers
    &&& a.dependencies == b.dependencies
    &&& a.volumes == b.volumes
    &&& a._namespace == b._namespace
    &&& a._location == b._location
}

/// Whether `new` and `r` are what resolving the secret placeholders of `old`
/// gives: every value resolved, or the manifest as it was, with what the
/// first value that does not resolve asks for or fails with.
pub open spec fn secrets_applied(
    old: Manifest,
    vault: Vault,
    region: Seq<char>,
    r: Result<Progress, Error>,
    new: Manifest,
) -> bool {
    &&& same_but_env(old, new)
    &&& match r {
        Ok(Progress::Done) => all_resolved(
            old.env.entries(),
            vault,
            region,
            old.secrets_service(),
            new.env.entries(),
        ),
        Ok(Progress::Fetch(p)) => new.env == old.env && substitution(
            old.env.entries(),
            vault,
            region,
            old.secrets_service(),
            Ok(Substituted::Fetch(p)),
        ),
        Err(e) => new.env == old.env && substitution(
            old.env.entries(),
            vault,
            region,
            old.secrets_service(),
            Err(e),
        ),
    }
}

/// Whether `b` is `a` with its gaps filled from `over`, if there is one.
pub open spec fn overlaid(a: Manifest, over: Option<Manifest>, b: Manifest) -> bool {
    match over {
        None => b == a,
        Some(o) => gaps_filled(a, o, b),
    }
}

/// Whether `new` and `r` are what the secrets step gives on `old`, with the
/// vault if there is one.
pub open spec fn secrets_stage(
    old: Manifest,
    vault: Option<Vault>,
    region: Seq<char>,
    r: Result<Progress, Error>,
    new: Manifest,
) -> bool {
    match vault {
        None => r matches Ok(Progress::Done) && new == old,
        Some(v) => secrets_applied(old, v, region, r, new),
    }
}

/// Whether `new` and `r` are what naming the region gives on `old`, after a
/// secrets step that ended in `sr`: a step that is not done ends the
/// resolution as it ended; else the region must have two parts, which become
/// namespace and location.
pub open spec fn region_stage(
    old: Manifest,
    region: Seq<char>,
    sr: Result<Progress, Error>,
    r: Result<Progress, Error>,
    new: Manifest,
) -> bool {
    match sr {
        Err(e) => r == Err::<Progress, Error>(e),
        Ok(Progress::Fetch(p)) => r matches Ok(Progress::Fetch(q)) && q == p,
        Ok(Progress::Done) => {
            let parts = split_on(region, '-');
            if parts.len() != 2 {
                r == Err::<Progress, Error>(Error::InvalidRegion)
            } else {
                &&& r matches Ok(Progress::Done)
                &&& same_base(old, new)
                &&& new.env == old.env
                &&& new.image == old.image
                &&& new.configs == old.configs
                &&& new.volume_mounts == old.volume_mounts
                &&& new.init_containers == old.init_containers
                &&& new.dependencies == old.dependencies
                &&& new.volumes == old.volumes
                &&& new._namespace@ == parts[0]
                &&& new._location@ == parts[1]
            }
        },
    }
}

/// The stages of a resolution: `old` with implicit defaults is `m1`; `m1`
/// overlaid with the service's override is `m2`; `m2` overlaid with the
/// region's defaults is `m3`; `m3` with secrets resolved is `m4`, where the
/// secrets step ended in `sr`; naming the region then gives `new` and `r`.
pub open spec fn resolution_stages(
    old: Manifest,
    region: Seq<char>,
    locals: Option<Manifest>,
    globals: Option<Manifest>,
    vault: Option<Vault>,
    m1: Manifest,
    m2: Manifest,
    m3: Manifest,
    m4: Manifest,
    sr: Result<Progress, Error>,
    r: Result<Progress, Error>,
    new: Manifest,
) -> bool {
    &&& implicits_applied(old, m1)
    &&& overlaid(m1, locals, m2)
    &&& overlaid(m2, globals, m3)
    &&& secrets_stage(m3, vault, region, sr, m4)
    &&& region_stage(m4, region, sr, r, new)
}

/// Whether `new` and `r` are what resolving `old` for `region` gives.
pub open spec fn resolved(
    old: Manifest,
    region: Seq<char>,
    locals: Option<Manifest>,
    globals: Option<Manifest>,
    vault: Option<Vault>,
    r: Result<Progress, Error>,
    new: Manifest,
) -> bool {
    exists|m1: Manifest, m2: Manifest, m3: Manifest, m4: Manifest, sr: Result<Progress, Error>|
        #[trigger] resolution_stages(
            old,
            region,
            locals,
            globals,
            vault,
            m1,
            m2,
            m3,
            m4,
            sr,
            r,
            new,
        )
}

/// The vault behind an optional reference.
pub open spec fn vault_of(vault: Option<&Vault>) -> Option<Vault> {
    match vault {
        Some(v) => Some(*v),
        None => None,
    }
}

impl Manifest {
    /// The service under whose name the secrets are kept.
    pub open spec fn secrets_service(self) -> Seq<char> {
        match self.vault {
            Some(v) => v.name@,
            None => self.name@,
        }
    }

    /// Replaces the secret placeholders in the environment.
    pub fn secrets(&mut self, client: &Vault, region: &str) -> (r: Result<Progress, Error>)
        ensures
            secrets_applied(*old(self), *client, region@, r, *final(self)),
    {
        let outcome = match &self.vault {
            Some(vopts) => substitute(&self.env, client, region, vopts.name.as_str()),
            None => substitute(&self.env, client, region, self.name.as_str()),
        };
        match outcome {
            Ok(Substituted::Done(env)) => {
                self.env = env;
                Ok(Progress::Done)
            },
            Ok(Substituted::Fetch(p)) => Ok(Progress::Fetch(p)),
            Err(e) => Err(e),
        }
    }

    /// Completes the manifest for `region`: implicit defaults, then the gaps
    /// filled from the service's override `locals` and from the region's
    /// defaults `globals`, then secrets resolved if there is a vault, then
    /// namespace and location taken from the region.
    ///
    /// Only a result that is done leaves a manifest to use: after a failure
    /// or a request to fetch, the manifest is filled in part.
    pub fn fill(
        &mut self,
        region: &str,
        locals: Option<Manifest>,
        globals: Option<Manifest>,
        vault: Option<&Vault>,
    ) -> (r: Result<Progress, Error>)
        ensures
            resolved(*old(self), region@, locals, globals, vault_of(vault), r, *final(self)),
    {
        let _ = self.implicits();
        let ghost m1 = *self;
        match locals {
            Some(l) => {
                let _ = self.merge(l);
            },
            None => {},
        }
        let ghost m2 = *self;
        match globals {
            Some(g) => {
                let _ = self.merge(g);
            },
            None => {},
        }
        let ghost m3 = *self;
        let sr = match vault {
            Some(client) => self.secrets(client, region),
            None => Ok(Progress::Done),
        };
        let ghost m4 = *self;
        let ghost sr0 = sr;
        let r = match sr {
            Err(e) => Err(e),
            Ok(Progress::Fetch(p)) => Ok(Progress::Fetch(p)),
            Ok(Progress::Done) => {
                let v = chars_of(region);
                let parts = split(&v, '-');
                assert(pieces(parts@).len() == parts@.len());
                if parts.len() != 2 {
                    Err(Error::InvalidRegion)
                } else {
                    assert(pieces(parts@)[0] == parts@[0]@);
                    assert(pieces(parts@)[1] == parts@[1]@);
                    self._namespace = string_of(&parts[0]);
                    self._location = string_of(&parts[1]);
                    Ok(Progress::Done)
                }
            },
        };
        proof {
            assert(resolution_stages(
                *old(self),
                region@,
                locals,
                globals,
                vault_of(vault),
                m1,
                m2,
                m3,
                m4,
                sr0,
                r,
                *self,
            ));
        }
        r
    }

    /// The manifest `mf` as read, with its implicit defaults: a manifest for
    /// no region in particular.
    pub fn basic(mf: Manifest) -> (r: Result<Manifest, Error>)
        ensures
            r matches Ok(m) && implicits_applied(mf, m),
    {
        let mut mf = mf;
        let _ = mf.implicits();
        Ok(mf)
    }
}

/// What the resolution of a manifest ends in.
#[derive(Debug)]
pub enum Completion {
    /// The manifest, completed.
    Ready(Manifest),
    /// The record at this path has to be fetched and stored; then the
    /// resolution is taken again.
    Fetch(String),
}

/// In the cascade, a variable keeps the value that the manifest gives it;
/// failing that, it has the value of the service's override for the region;
/// failing that, the value of the region's defaults.
pub proof fn law_cascade_precedence(
    m1: Manifest,
    locals: Manifest,
    m2: Manifest,
    globals: Manifest,
    m3: Manifest,
    k: Seq<char>,
)
    requires
        gaps_filled(m1, locals, m2),
        gaps_filled(m2, globals, m3),
        m1.env.wf(),
        locals.env.wf(),
        globals.env.wf(),
    ensures
        m3.env@.dom() == m1.env@.dom().union(locals.env@.dom()).union(globals.env@.dom()),
        m1.env@.dom().contains(k) ==> m3.env@[k] == m1.env@[k],
        !m1.env@.dom().contains(k) && locals.env@.dom().contains(k) ==> m3.env@[k]
            == locals.env@[k],
        !m1.env@.dom().contains(k) && !locals.env@.dom().contains(k) && globals.env@.dom().contains(
            k,
        ) ==> m3.env@[k] == globals.env@[k],
{
    m1.env.lemma_wf();
    locals.env.lemma_wf();
    globals.env.lemma_wf();
    crate::manifest::lemma_gap_entries(m1.env.entries(), locals.env.entries());
    crate::manifest::lemma_gap_entries(m2.env.entries(), globals.env.entries());
    assert(m3.env@.dom() =~= m1.env@.dom().union(locals.env@.dom()).union(globals.env@.dom()));
}

/// Secrets are resolved last: in a resolution with both overlays and a vault
/// that ends done, the environment is the manifest's own, with its gaps
/// filled from the service's override and then from the region's defaults,
/// and with every value of that resolved.
pub proof fn law_secrets_after_overlays(
    old: Manifest,
    region: Seq<char>,
    locals: Manifest,
    globals: Manifest,
    vault: Vault,
    r: Result<Progress, Error>,
    new: Manifest,
)
    requires
        resolved(old, region, Some(locals), Some(globals), Some(vault), r, new),
        r matches Ok(Progress::Done),
    ensures
        all_resolved(
            gap_entries(
                gap_entries(old.env.entries(), locals.env.entries()),
                globals.env.entries(),
            ),
            vault,
            region,
            old.secrets_service(),
            new.env.entries(),
        ),
        split_on(region, '-').len() == 2,
        new._namespace@ == split_on(region, '-')[0],
        new._location@ == split_on(region, '-')[1],
{
    let (m1, m2, m3, m4, sr) = choose|
        m1: Manifest,
        m2: Manifest,
        m3: Manifest,
        m4: Manifest,
        sr: Result<Progress, Error>,
    | #[trigger]
        resolution_stages(
            old,
            region,
            Some(locals),
            Some(globals),
            Some(vault),
            m1,
            m2,
            m3,
            m4,
            sr,
            r,
            new,
        );
    assert(sr matches Ok(Progress::Done));
    assert(m3.secrets_service() == old.secrets_service());
}

/// One region to validate a service for: a copy of the service's manifest as
/// read, the region, and the two override documents where they exist.
#[derive(Debug)]
pub struct RegionCase {
    pub manifest: Manifest,
    pub region: String,
    pub locals: Option<Manifest>,
    pub globals: Option<Manifest>,
}

/// Whether `r` is the outcome of validating the case `c`: its manifest is
/// completed for its region, with mocked secrets if `secrets` is set and with
/// none otherwise, and the completed manifest is checked.
pub open spec fn case_outcome(
    c: RegionCase,
    secrets: bool,
    services: Seq<Seq<char>>,
    region_files: Seq<Seq<char>>,
    r: Result<(), Error>,
) -> bool {
    exists|vault: Option<Vault>, fr: Result<Progress, Error>, m: Manifest|
        {
            &&& #[trigger] resolved(c.manifest, c.region@, c.locals, c.globals, vault, fr, m)
            &&& vault is Some == secrets
            &&& vault matches Some(v) ==> v.mocked()
            &&& match fr {
                Err(e) => r == Err::<(), Error>(e),
                Ok(Progress::Done) => r == m.verify_outcome(services, region_files),
                Ok(Progress::Fetch(_)) => false,
            }
        }
}

/// Whether `r` is the outcome of validating the cases in order: all pass, or
/// `r` is the failure of the first that fails.
pub open spec fn validation(
    cases: Seq<RegionCase>,
    secrets: bool,
    services: Seq<Seq<char>>,
    region_files: Seq<Seq<char>>,
    r: Result<(), Error>,
) -> bool {
    match r {
        Ok(()) => forall|i: int|
            0 <= i < cases.len() ==> case_outcome(
                #[trigger] cases[i],
                secrets,
                services,
                region_files,
                Ok(()),
            ),
        Err(e) => exists|k: int|
            {
                &&& 0 <= k < cases.len()
                &&& case_outcome(#[trigger] cases[k], secrets, services, region_files, Err(e))
                &&& forall|j: int|
                    0 <= j < k ==> case_outcome(
                        #[trigger] cases[j],
                        secrets,
                        services,
                        region_files,
                        Ok(()),
                    )
            },
    }
}

/// With no vault, or with a mocked one, a resolution never asks for a fetch.
pub proof fn lemma_no_fetch(
    old: Manifest,
    region: Seq<char>,
    locals: Option<Manifest>,
    globals: Option<Manifest>,
    vault: Option<Vault>,
    r: Result<Progress, Error>,
    new: Manifest,
)
    requires
        resolved(old, region, locals, globals, vault, r, new),
        vault matches Some(v) ==> v.mocked(),
    ensures
        !(r matches Ok(Progress::Fetch(_))),
{
    if let Ok(Progress::Fetch(q)) = r {
        let (m1, m2, m3, m4, sr) = choose|
            m1: Manifest,
            m2: Manifest,
            m3: Manifest,
            m4: Manifest,
            sr: Result<Progress, Error>,
        | #[trigger]
            resolution_stages(old, region, locals, globals, vault, m1, m2, m3, m4, sr, r, new);
        assert(sr matches Ok(Progress::Fetch(_)));
        let v = vault->0;
        let p = sr->Ok_0->Fetch_0;
        let es = m3.env.entries();
        let i = choose|i: int| #[trigger]
            crate::secrets::first_blocked(es, v, region, m3.secrets_service(), i)
                && crate::secrets::resolved_at(es, v, region, m3.secrets_service(), i)
                == Resolution::NeedFetch(p@);
        crate::secrets::law_mock_resolution(
            v,
            region,
            m3.secrets_service(),
            es[i].0,
            es[i].1@,
            i,
        );
    }
}

/// Validates a service for each region that it declares: each case is
/// completed and checked, and the first failure ends the validation.
///
/// With `secrets` set, secret placeholders are resolved against mocked
/// secrets; else they stay as they are.
pub fn validate(
    cases: Vec<RegionCase>,
    secrets: bool,
    services: &Vec<String>,
    region_files: &Vec<String>,
) -> (r: Result<(), Error>)
    ensures
        validation(cases@, secrets, names(services@), names(region_files@), r),
{
    let ghost all = cases@;
    let n = cases.len();
    let mut rest = crate::keyed::reversed(cases);
    let mut i: usize = 0;
    while i < n
        invariant
            i <= n,
            all == cases@,
            n == all.len(),
            rest@.len() == n - i,
            forall|j: int| 0 <= j < n - i ==> #[trigger] rest@[j] == all[n - 1 - j],
            forall|j: int|
                0 <= j < i ==> case_outcome(
                    #[trigger] all[j],
                    secrets,
                    names(services@),
                    names(region_files@),
                    Ok(()),
                ),
        decreases n - i,
    {
        let c = rest.pop().unwrap();
        assert(c == all[i as int]);
        let RegionCase { manifest, region, locals, globals } = c;
        let mut mfr = manifest;
        let mut vault = Vault::new();
        vault.mock_secrets();
        let step = if secrets {
            mfr.fill(region.as_str(), locals, globals, Some(&vault))
        } else {
            mfr.fill(region.as_str(), locals, globals, None)
        };
        let ghost used: Option<Vault> = if secrets {
            Some(vault)
        } else {
            None
        };
        proof {
            lemma_no_fetch(manifest, region@, locals, globals, used, step, mfr);
        }
        let outcome = match step {
            Err(e) => Err(e),
            Ok(Progress::Done) => mfr.verify(services, region_files),
            Ok(Progress::Fetch(_)) => unreached(),
        };
        proof {
            assert(resolved(manifest, region@, locals, globals, used, step, mfr));
            assert(case_outcome(
                all[i as int],
                secrets,
                names(services@),
                names(region_files@),
                outcome,
            ));
        }
        match outcome {
            Ok(()) => {},
            Err(e) => {
                return Err(e);
            },
        }
        i += 1;
    }
    Ok(())
}

/// How far a resolution that ended in `r` came.
pub open spec fn progress_of(r: Result<Completion, Error>) -> Result<Progress, Error> {
    match r {
        Ok(Completion::Ready(_)) => Ok(Progress::Done),
        Ok(Completion::Fetch(p)) => Ok(Progress::Fetch(p)),
        Err(e) => Err(e),
    }
}

/// Whether `r` is what resolving `mf` for `region` ends in, with the manifest
/// `m` as it stands then: a completed manifest is `m` itself.
pub open spec fn completion(
    mf: Manifest,
    region: Seq<char>,
    locals: Option<Manifest>,
    globals: Option<Manifest>,
    vault: Option<Vault>,
    r: Result<Completion, Error>,
    m: Manifest,
) -> bool {
    &&& resolved(mf, region, locals, globals, vault, progress_of(r), m)
    &&& r matches Ok(Completion::Ready(done)) ==> done == m
}

impl Manifest {
    /// Completes the manifest `mf` as read for `region`.
    pub fn completed(
        mf: Manifest,
        region: &str,
        locals: Option<Manifest>,
        globals: Option<Manifest>,
        vault: Option<&Vault>,
    ) -> (r: Result<Completion, Error>)
        ensures
            exists|m: Manifest| #[trigger]
                completion(mf, region@, locals, globals, vault_of(vault), r, m),
    {
        let mut m = mf;
        let step = m.fill(region, locals, globals, vault);
        let ghost step0 = step;
        let r = match step {
            Ok(Progress::Done) => Ok(Completion::Ready(m)),
            Ok(Progress::Fetch(p)) => Ok(Completion::Fetch(p)),
            Err(e) => Err(e),
        };
        proof {
            assert(progress_of(r) == step0);
            assert(completion(mf, region@, locals, globals, vault_of(vault), r, m));
        }
        r
    }
}

} // verus!
