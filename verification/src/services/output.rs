//! What an apply run writes: the manifests of the services, the launcher, the
//! local store with the environment file, and what is asked of the container
//! orchestrator. The caller renders and writes; the engine says what and
//! where.

use vstd::prelude::*;
use vstd::string::*;

use crate::bridgehead::Bridgehead;
use crate::config::{join_path, spec_env_text, spec_join_path};
use crate::identity::{Network, ServiceId};
use crate::services::beam::url_host_text;
use crate::services::ServiceMap;
use crate::utils::{concat2, same_text, texts_of};

verus! {

/// One step of writing a site out.
#[derive(Debug)]
pub enum WriteStep {
    /// Remove the directory with all it holds and make it anew.
    ResetDir { path: String },
    /// Write the file, and make it executable if asked.
    Write { path: String, content: String, executable: bool },
}

/// What is asked of the container orchestrator: the arguments of the call
/// that writes the image lock file, and of the call that pulls the images.
#[derive(Debug)]
pub struct ComposePlan {
    pub lock_args: Vec<String>,
    pub pull_args: Vec<String>,
}

/// The file that holds the manifest of the service `id` below `dir`.
pub open spec fn spec_manifest_path(dir: Seq<char>, id: ServiceId) -> Seq<char> {
    spec_join_path(dir, id.spec_service_name() + ".yml"@)
}

/// The step writes `content` to `path`.
pub open spec fn writes(step: WriteStep, path: Seq<char>, content: Seq<char>, executable: bool) -> bool {
    step matches WriteStep::Write { path: p, content: c, executable: e } && p@ == path && c@
        == content && e == executable
}

/// The arguments that name the manifests of `ids` below `dir`: `-f` and the
/// file, for each of them.
pub open spec fn spec_file_args(dir: Seq<char>, ids: Seq<ServiceId>) -> Seq<Seq<char>>
    decreases ids.len(),
{
    if ids.len() == 0 {
        Seq::empty()
    } else {
        spec_file_args(dir, ids.drop_last()).push("-f"@).push(
            spec_manifest_path(dir, ids.last()),
        )
    }
}

/// The arguments that lead to the manifests and the environment file, before
/// the command itself.
pub open spec fn spec_compose_prefix(dir: Seq<char>, ids: Seq<ServiceId>, with_override: bool) -> Seq<
    Seq<char>,
> {
    spec_file_args(dir, ids) + if with_override {
        seq!["-f"@, "docker-compose.override.yml"@]
    } else {
        Seq::<Seq<char>>::empty()
    } + seq!["--env-file"@, ".env"@]
}

/// The beam proxy of a network.
pub open spec fn proxy_of(n: Network) -> ServiceId {
    ServiceId::BeamProxy(n)
}

/// The ids of the brokers of the beam proxies among `ids`, each once, in
/// the order in which the proxies come.
pub open spec fn spec_networks(ids: Seq<ServiceId>) -> Seq<Seq<char>>
    decreases ids.len(),
{
    if ids.len() == 0 {
        Seq::empty()
    } else {
        let before = spec_networks(ids.drop_last());
        match ids.last() {
            ServiceId::BeamProxy(n) => match url_host_text(n.spec_broker_url()) {
                Some(h) => if before.contains(h) {
                    before
                } else {
                    before.push(h)
                },
                None => before,
            },
            _ => before,
        }
    }
}

impl ServiceMap {
    /// The identities of the services that are built, in the order in which
    /// they came in.
    pub fn services(&self) -> (ids: Vec<ServiceId>)
        requires
            self.wf(),
        ensures
            ids@ == self.registry.order(),
            forall|id: ServiceId| self.registry@.contains_key(id) <==> ids@.contains(id),
    {
        let mut ids: Vec<ServiceId> = Vec::new();
        let mut i: usize = 0;
        while i < self.registry.len()
            invariant
                i <= self.registry.order().len(),
                ids@ == self.registry.order().subrange(0, i as int),
            decreases self.registry.order().len() - i,
        {
            ids.push(self.registry.id_at(i));
            assert(ids@ =~= self.registry.order().subrange(0, i + 1));
            i += 1;
        }
        proof {
            assert(ids@ =~= self.registry.order());
            self.registry.lemma_order();
            assert forall|id: ServiceId| ids@.contains(id) implies self.registry@.contains_key(
                id,
            ) by {
                let j = choose|j: int| 0 <= j < ids@.len() && ids@[j] == id;
                assert(self.registry@.contains_key(self.registry.order()[j]));
            }
        }
        ids
    }

    /// The launcher of the site: it knows the ids of the brokers of all beam
    /// proxies that are built, each id once, in the order in which the
    /// proxies were built.
    pub fn launcher(&self) -> (launcher: Bridgehead)
        requires
            self.wf(),
        ensures
            texts_of(launcher.beam_networks@) == spec_networks(self.registry.order()),
            texts_of(launcher.beam_networks@).no_duplicates(),
            forall|h: Seq<char>|
                texts_of(launcher.beam_networks@).contains(h) <==> exists|n: Network|
                    self.registry@.contains_key(#[trigger] proxy_of(n))
                        && url_host_text(n.spec_broker_url()) == Some(h),
    {
        let mut networks: Vec<String> = Vec::new();
        let mut i: usize = 0;
        let ghost order = self.registry.order();
        proof {
            self.registry.lemma_order();
        }
        while i < self.registry.len()
            invariant
                i <= order.len(),
                order == self.registry.order(),
                self.wf(),
                texts_of(networks@) == spec_networks(order.subrange(0, i as int)),
                texts_of(networks@).no_duplicates(),
                forall|h: Seq<char>|
                    texts_of(networks@).contains(h) <==> exists|n: Network|
                        order.subrange(0, i as int).contains(#[trigger] proxy_of(n))
                            && url_host_text(n.spec_broker_url()) == Some(h),
            decreases order.len() - i,
        {
            let id = self.registry.id_at(i);
            let ghost before = texts_of(networks@);
            let ghost seen = order.subrange(0, i as int);
            let ghost next = order.subrange(0, i + 1);
            proof {
                assert(next == seen.push(id));
                assert(next.drop_last() == seen);
                assert(next.last() == id);
                assert forall|x: ServiceId| next.contains(x) <==> seen.contains(x) || x == id by {
                    if seen.contains(x) {
                        let j = choose|j: int| 0 <= j < seen.len() && seen[j] == x;
                        assert(next[j] == x);
                    }
                    if x == id {
                        assert(next[i as int] == x);
                    }
                    if next.contains(x) {
                        let j = choose|j: int| 0 <= j < next.len() && next[j] == x;
                        if j < i {
                            assert(seen[j] == x);
                        }
                    }
                }
            }
            let host = match id {
                ServiceId::BeamProxy(network) => network.broker_id(),
                _ => None,
            };
            let ghost host_text: Option<Seq<char>> = if host is Some {
                Some(host->0@)
            } else {
                None
            };
            proof {
                assert forall|n: Network| id == proxy_of(n) implies url_host_text(
                    n.spec_broker_url(),
                ) == host_text by {}
            }
            match host {
                Some(broker) => {
                    if !has_text(&networks, broker.as_str()) {
                        networks.push(broker);
                    }
                },
                None => {},
            }
            proof {
                let now = texts_of(networks@);
                let added = host_text is Some && !before.contains(host_text->0);
                if added {
                    assert(now == before.push(host_text->0));
                } else {
                    assert(now == before);
                }
                assert(now == spec_networks(next));
                assert forall|h: Seq<char>| now.contains(h) <==> before.contains(h) || host_text
                    == Some(h) by {
                    if before.contains(h) {
                        let j = choose|j: int| 0 <= j < before.len() && before[j] == h;
                        assert(now[j] == h);
                    }
                    if now.contains(h) {
                        let j = choose|j: int| 0 <= j < now.len() && now[j] == h;
                        if j < before.len() {
                            assert(before[j] == h);
                        }
                    }
                    if host_text == Some(h) && added {
                        assert(now[before.len() as int] == h);
                    }
                }
                assert forall|h: Seq<char>|
                    now.contains(h) <==> exists|n: Network|
                        next.contains(#[trigger] proxy_of(n)) && url_host_text(
                            n.spec_broker_url(),
                        ) == Some(h) by {
                    if before.contains(h) {
                        let n = choose|n: Network|
                            seen.contains(#[trigger] proxy_of(n)) && url_host_text(
                                n.spec_broker_url(),
                            ) == Some(h);
                        assert(next.contains(proxy_of(n)) && url_host_text(n.spec_broker_url())
                            == Some(h));
                    } else if host_text == Some(h) {
                        match id {
                            ServiceId::BeamProxy(network) => {
                                assert(id == proxy_of(network));
                                assert(next.contains(proxy_of(network)) && url_host_text(
                                    network.spec_broker_url(),
                                ) == Some(h));
                            },
                            _ => {},
                        }
                    }
                    if exists|n: Network|
                        next.contains(#[trigger] proxy_of(n)) && url_host_text(
                            n.spec_broker_url(),
                        ) == Some(h) {
                        let n = choose|n: Network|
                            next.contains(#[trigger] proxy_of(n)) && url_host_text(
                                n.spec_broker_url(),
                            ) == Some(h);
                        if seen.contains(proxy_of(n)) {
                            assert(before.contains(h));
                        } else {
                            assert(id == proxy_of(n));
                            assert(host_text == Some(h));
                        }
                    }
                }
                assert(now.no_duplicates());
            }
            i += 1;
        }
        proof {
            assert(order.subrange(0, order.len() as int) == order);
            assert forall|n: Network|
                self.registry@.contains_key(#[trigger] proxy_of(n))
                <==> order.contains(proxy_of(n)) by {
                if order.contains(proxy_of(n)) {
                    let j = choose|j: int| 0 <= j < order.len() && order[j] == proxy_of(n);
                    assert(self.registry@.contains_key(order[j]));
                }
            }
        }
        Bridgehead::new(networks)
    }

    /// The steps that write the manifests: the directory of the services is
    /// made anew, then the manifest of each service is written into it.
    /// `rendered` holds the manifests in the order of `services`.
    pub fn write_composables(&self, rendered: Vec<String>) -> (steps: Vec<WriteStep>)
        requires
            self.wf(),
            rendered@.len() == self.registry.order().len(),
        ensures
            steps@.len() == rendered@.len() + 1,
            steps@[0] matches WriteStep::ResetDir { path } && path@ == spec_join_path(
                self.config.path@,
                "services"@,
            ),
            forall|i: int|
                0 <= i < rendered@.len() ==> writes(
                    #[trigger] steps@[i + 1],
                    spec_manifest_path(
                        spec_join_path(self.config.path@, "services"@),
                        self.registry.order()[i],
                    ),
                    rendered@[i]@,
                    false,
                ),
            forall|id: ServiceId|
                self.registry@.contains_key(id) ==> exists|i: int|
                    0 < i < steps@.len() && (#[trigger] steps@[i] matches WriteStep::Write {
                        path,
                        ..
                    } && path@ == spec_manifest_path(
                        spec_join_path(self.config.path@, "services"@),
                        id,
                    )),
    {
        let dir = self.config.services_dir();
        let mut steps: Vec<WriteStep> = Vec::new();
        steps.push(WriteStep::ResetDir { path: dir.clone() });
        let mut rest = rendered;
        let mut i: usize = 0;
        let n = self.registry.len();
        while i < n
            invariant
                n == self.registry.order().len(),
                n == rendered@.len(),
                i <= n,
                dir@ == spec_join_path(self.config.path@, "services"@),
                rest@ == rendered@.subrange(i as int, n as int),
                steps@.len() == i + 1,
                steps@[0] matches WriteStep::ResetDir { path } && path@ == dir@,
                forall|j: int|
                    0 <= j < i ==> writes(
                        #[trigger] steps@[j + 1],
                        spec_manifest_path(dir@, self.registry.order()[j]),
                        rendered@[j]@,
                        false,
                    ),
            decreases n - i,
        {
            let content = rest.remove(0);
            let name = self.registry.id_at(i).service_name();
            let file = concat2(name.as_str(), ".yml");
            let ghost before = steps@;
            steps.push(
                WriteStep::Write {
                    path: join_path(dir.as_str(), file.as_str()),
                    content,
                    executable: false,
                },
            );
            proof {
                assert forall|j: int| 0 <= j < i + 1 implies writes(
                    #[trigger] steps@[j + 1],
                    spec_manifest_path(dir@, self.registry.order()[j]),
                    rendered@[j]@,
                    false,
                ) by {
                    if j < i {
                        assert(steps@[j + 1] == before[j + 1]);
                    }
                }
            }
            i += 1;
        }
        proof {
            self.registry.lemma_order();
            assert forall|id: ServiceId| self.registry@.contains_key(id) implies exists|i: int|
                0 < i < steps@.len() && (#[trigger] steps@[i] matches WriteStep::Write {
                    path,
                    ..
                } && path@ == spec_manifest_path(dir@, id)) by {
                assert(self.registry.order().contains(id));
                let j = choose|j: int|
                    0 <= j < self.registry.order().len() && self.registry.order()[j] == id;
                assert(writes(
                    steps@[j + 1],
                    spec_manifest_path(dir@, self.registry.order()[j]),
                    rendered@[j]@,
                    false,
                ));
            }
        }
        steps
    }

    /// The steps that write the whole site out: the manifests, the launcher,
    /// the local store, the environment file made from it, and the list of
    /// what git is to ignore. `rendered` holds the manifests in the order of
    /// `services`; `launcher`, `local_conf` and `gitignore` hold the other
    /// files as they were rendered.
    pub fn write_all(
        &self,
        rendered: Vec<String>,
        launcher: String,
        local_conf: String,
        gitignore: String,
    ) -> (steps: Vec<WriteStep>)
        requires
            self.wf(),
            rendered@.len() == self.registry.order().len(),
        ensures
            steps@.len() == rendered@.len() + 5,
            steps@[0] matches WriteStep::ResetDir { path } && path@ == spec_join_path(
                self.config.path@,
                "services"@,
            ),
            forall|i: int|
                0 <= i < rendered@.len() ==> writes(
                    #[trigger] steps@[i + 1],
                    spec_manifest_path(
                        spec_join_path(self.config.path@, "services"@),
                        self.registry.order()[i],
                    ),
                    rendered@[i]@,
                    false,
                ),
            writes(
                steps@[rendered@.len() as int + 1],
                spec_join_path(self.config.path@, "bridgehead"@),
                launcher@,
                true,
            ),
            writes(
                steps@[rendered@.len() as int + 2],
                spec_join_path(self.config.path@, "config.local.toml"@),
                local_conf@,
                false,
            ),
            writes(
                steps@[rendered@.len() as int + 3],
                spec_join_path(self.config.path@, ".env"@),
                spec_env_text(self.local_conf.env_entries()),
                false,
            ),
            writes(
                steps@[rendered@.len() as int + 4],
                spec_join_path(self.config.path@, ".gitignore"@),
                gitignore@,
                false,
            ),
    {
        let ghost n = rendered@.len() as int;
        let mut steps = self.write_composables(rendered);
        let ghost manifests = steps@;
        steps.push(
            WriteStep::Write {
                path: self.config.launcher_path(),
                content: launcher,
                executable: true,
            },
        );
        steps.push(
            WriteStep::Write {
                path: self.config.local_conf_path(),
                content: local_conf,
                executable: false,
            },
        );
        steps.push(
            WriteStep::Write {
                path: self.config.env_path(),
                content: self.local_conf.to_env(),
                executable: false,
            },
        );
        steps.push(
            WriteStep::Write {
                path: join_path(self.config.path.as_str(), ".gitignore"),
                content: gitignore,
                executable: false,
            },
        );
        proof {
            assert(steps@[0] == manifests[0]);
            assert forall|i: int| 0 <= i < n implies writes(
                #[trigger] steps@[i + 1],
                spec_manifest_path(
                    spec_join_path(self.config.path@, "services"@),
                    self.registry.order()[i],
                ),
                rendered@[i]@,
                false,
            ) by {
                assert(steps@[i + 1] == manifests[i + 1]);
            }
        }
        steps
    }

    /// What is asked of the container orchestrator once the site is written
    /// out: to write the image lock file and to pull the images, both for
    /// the manifests of all services, and for the override file where there
    /// is one. Nothing is asked where no service is built.
    pub fn generate_lockfile_and_pull(&self, override_exists: bool) -> (plan: Option<ComposePlan>)
        requires
            self.wf(),
        ensures
            plan is None <==> self.registry.order().len() == 0,
            plan matches Some(p) ==> {
                let prefix = spec_compose_prefix(
                    spec_join_path(self.config.path@, "services"@),
                    self.registry.order(),
                    override_exists,
                );
                &&& texts_of(p.lock_args@) == prefix + seq!["config"@, "--lock-image-digests"@]
                &&& texts_of(p.pull_args@) == prefix + seq!["pull"@, "--quiet"@]
            },
    {
        if self.registry.len() == 0 {
            return None;
        }
        let mut lock_args = self.compose_prefix(override_exists);
        let mut pull_args = self.compose_prefix(override_exists);
        let ghost prefix = texts_of(lock_args@);
        lock_args.push(String::from_str("config"));
        lock_args.push(String::from_str("--lock-image-digests"));
        pull_args.push(String::from_str("pull"));
        pull_args.push(String::from_str("--quiet"));
        proof {
            assert(texts_of(lock_args@) =~= prefix + seq!["config"@, "--lock-image-digests"@]);
            assert(texts_of(pull_args@) =~= prefix + seq!["pull"@, "--quiet"@]);
        }
        Some(ComposePlan { lock_args, pull_args })
    }

    fn compose_prefix(&self, override_exists: bool) -> (args: Vec<String>)
        requires
            self.wf(),
        ensures
            texts_of(args@) == spec_compose_prefix(
                spec_join_path(self.config.path@, "services"@),
                self.registry.order(),
                override_exists,
            ),
    {
        let dir = self.config.services_dir();
        let mut args: Vec<String> = Vec::new();
        let mut i: usize = 0;
        let ghost order = self.registry.order();
        assert(texts_of(args@) =~= spec_file_args(dir@, order.subrange(0, 0)));
        while i < self.registry.len()
            invariant
                i <= order.len(),
                order == self.registry.order(),
                dir@ == spec_join_path(self.config.path@, "services"@),
                texts_of(args@) == spec_file_args(dir@, order.subrange(0, i as int)),
            decreases order.len() - i,
        {
            let name = self.registry.id_at(i).service_name();
            let file = concat2(name.as_str(), ".yml");
            let ghost before = texts_of(args@);
            args.push(String::from_str("-f"));
            args.push(join_path(dir.as_str(), file.as_str()));
            proof {
                let next = order.subrange(0, i + 1);
                assert(next.drop_last() == order.subrange(0, i as int));
                assert(next.last() == order[i as int]);
                assert(texts_of(args@) =~= before.push("-f"@).push(
                    spec_manifest_path(dir@, order[i as int]),
                ));
            }
            i += 1;
        }
        proof {
            assert(order.subrange(0, order.len() as int) == order);
        }
        let ghost files = texts_of(args@);
        if override_exists {
            args.push(String::from_str("-f"));
            args.push(String::from_str("docker-compose.override.yml"));
        }
        args.push(String::from_str("--env-file"));
        args.push(String::from_str(".env"));
        proof {
            assert(texts_of(args@) =~= files + if override_exists {
                seq!["-f"@, "docker-compose.override.yml"@]
            } else {
                Seq::<Seq<char>>::empty()
            } + seq!["--env-file"@, ".env"@]);
        }
        args
    }
}

fn has_text(list: &Vec<String>, text: &str) -> (b: bool)
    ensures
        b == texts_of(list@).contains(text@),
{
    let mut i: usize = 0;
    while i < list.len()
        invariant
            i <= list@.len(),
            forall|j: int| 0 <= j < i ==> texts_of(list@)[j] != text@,
        decreases list@.len() - i,
    {
        if same_text(list[i].as_str(), text) {
            assert(texts_of(list@)[i as int] == text@);
            return true;
        }
        i += 1;
    }
    false
}

} // verus!
