//! The catalog of named network scenarios.

use vstd::prelude::*;

verus! {

/// A named profile of base network conditions and their variation ranges, all
/// in fixed-point units (latency and jitter in ms, bandwidth in Kbps, packet
/// loss as a fraction).
#[derive(Debug)]
pub struct NetworkScenario {
    pub name: String,
    pub description: String,
    pub base_latency: u64,
    pub base_bandwidth: u64,
    pub base_packet_loss: u64,
    pub base_jitter: u64,
    pub latency_variation: u64,
    pub bandwidth_variation: u64,
    pub packet_loss_variation: u64,
    pub jitter_variation: u64,
}

impl Clone for NetworkScenario {
    fn clone(&self) -> (r: Self)
        ensures
            r == *self,
    {
        NetworkScenario {
            name: self.name.clone(),
            description: self.description.clone(),
            base_latency: self.base_latency,
            base_bandwidth: self.base_bandwidth,
            base_packet_loss: self.base_packet_loss,
            base_jitter: self.base_jitter,
            latency_variation: self.latency_variation,
            bandwidth_variation: self.bandwidth_variation,
            packet_loss_variation: self.packet_loss_variation,
            jitter_variation: self.jitter_variation,
        }
    }
}

/// The base and variation values of a scenario, in field order.
pub open spec fn scenario_values(s: NetworkScenario) -> (u64, u64, u64, u64, u64, u64, u64, u64) {
    (
        s.base_latency,
        s.base_bandwidth,
        s.base_packet_loss,
        s.base_jitter,
        s.latency_variation,
        s.bandwidth_variation,
        s.packet_loss_variation,
        s.jitter_variation,
    )
}

impl NetworkScenario {
    pub fn new(
        name: &str,
        description: &str,
        base_latency: u64,
        base_bandwidth: u64,
        base_packet_loss: u64,
        base_jitter: u64,
        latency_variation: u64,
        bandwidth_variation: u64,
        packet_loss_variation: u64,
        jitter_variation: u64,
    ) -> (r: NetworkScenario)
        ensures
            r.name@ == name@,
            r.description@ == description@,
            scenario_values(r) == (
                base_latency,
                base_bandwidth,
                base_packet_loss,
                base_jitter,
                latency_variation,
                bandwidth_variation,
                packet_loss_variation,
                jitter_variation,
            ),
    {
        NetworkScenario {
            name: name.to_owned(),
            description: description.to_owned(),
            base_latency,
            base_bandwidth,
            base_packet_loss,
            base_jitter,
            latency_variation,
            bandwidth_variation,
            packet_loss_variation,
            jitter_variation,
        }
    }
}

/// The eight scenarios of the predefined catalog, by name: base latency, base
/// bandwidth, base packet loss, base jitter, then the four variation ranges,
/// in fixed-point units.
pub open spec fn predefined_values(name: Seq<char>) -> Option<(u64, u64, u64, u64, u64, u64, u64, u64)> {
    if name == "ideal"@ {
        Some((20_000_000, 10_000_000_000, 1_000, 1_000_000, 5_000_000, 1_000_000_000, 2_000, 500_000))
    } else if name == "congestion"@ {
        Some((120_000_000, 2_000_000_000, 20_000, 15_000_000, 50_000_000, 1_000_000_000, 30_000, 10_000_000))
    } else if name == "international"@ {
        Some((200_000_000, 5_000_000_000, 10_000, 8_000_000, 30_000_000, 1_000_000_000, 10_000, 5_000_000))
    } else if name == "wireless_interference"@ {
        Some((50_000_000, 3_000_000_000, 50_000, 20_000_000, 20_000_000, 1_500_000_000, 100_000, 15_000_000))
    } else if name == "mobile_handover"@ {
        Some((80_000_000, 2_000_000_000, 100_000, 25_000_000, 40_000_000, 1_000_000_000, 150_000, 20_000_000))
    } else if name == "asymmetric"@ {
        Some((40_000_000, 8_000_000_000, 10_000, 5_000_000, 10_000_000, 2_000_000_000, 20_000, 3_000_000))
    } else if name == "satellite"@ {
        Some((500_000_000, 5_000_000_000, 20_000, 10_000_000, 100_000_000, 1_000_000_000, 30_000, 8_000_000))
    } else if name == "extreme"@ {
        Some((300_000_000, 500_000_000, 200_000, 50_000_000, 100_000_000, 300_000_000, 200_000, 30_000_000))
    } else {
        None
    }
}

/// The description of each predefined scenario, by name.
pub open spec fn predefined_description(name: Seq<char>) -> Seq<char> {
    if name == "ideal"@ {
        "Ideal network conditions with low latency, high bandwidth, and minimal packet loss"@
    } else if name == "congestion"@ {
        "Network congestion with high latency and reduced bandwidth"@
    } else if name == "international"@ {
        "International connections with high latency and moderate bandwidth"@
    } else if name == "wireless_interference"@ {
        "Wireless networks with interference causing packet loss and jitter"@
    } else if name == "mobile_handover"@ {
        "Mobile devices during cell tower handover with unstable connections"@
    } else if name == "asymmetric"@ {
        "Asymmetric connections with high download but low upload speeds"@
    } else if name == "satellite"@ {
        "Satellite connections with very high latency but decent bandwidth"@
    } else if name == "extreme"@ {
        "Extreme network conditions with high latency, low bandwidth, and high packet loss"@
    } else {
        Seq::empty()
    }
}

/// The scenarios available to a simulation, at most one per name.
pub struct ScenarioManager {
    scenarios: Vec<NetworkScenario>,
}

impl ScenarioManager {
    /// The catalog as a map from scenario name to scenario.
    pub closed spec fn view(&self) -> Map<Seq<char>, NetworkScenario> {
        Map::new(
            |k: Seq<char>| exists|i: int| 0 <= i < self.scenarios@.len() && self.scenarios@[i].name@ == k,
            |k: Seq<char>|
                self.scenarios@[choose|i: int| 0 <= i < self.scenarios@.len() && self.scenarios@[i].name@ == k],
        )
    }

    /// No two scenarios share a name.
    pub closed spec fn wf(&self) -> bool {
        forall|i: int, j: int|
            0 <= i < self.scenarios@.len() && 0 <= j < self.scenarios@.len() && i != j
                ==> self.scenarios@[i].name@ != self.scenarios@[j].name@
    }

    proof fn lemma_view_at(&self, i: int)
        requires
            self.wf(),
            0 <= i < self.scenarios@.len(),
        ensures
            self@.contains_key(self.scenarios@[i].name@),
            self@[self.scenarios@[i].name@] == self.scenarios@[i],
    {
        let k = self.scenarios@[i].name@;
        assert(exists|j: int| 0 <= j < self.scenarios@.len() && self.scenarios@[j].name@ == k);
        let j = choose|j: int| 0 <= j < self.scenarios@.len() && self.scenarios@[j].name@ == k;
        assert(i == j);
    }

    /// An empty catalog.
    pub fn new() -> (r: ScenarioManager)
        ensures
            r.wf(),
            r@ == Map::<Seq<char>, NetworkScenario>::empty(),
    {
        let r = ScenarioManager { scenarios: Vec::new() };
        assert(r@ =~= Map::<Seq<char>, NetworkScenario>::empty());
        r
    }

    /// Index of the scenario named `name`, if there is one.
    fn find(&self, name: &String) -> (r: Option<usize>)
        requires
            self.wf(),
        ensures
            r is None ==> !self@.contains_key(name@),
            r matches Some(i) ==> i < self.scenarios@.len() && self.scenarios@[i as int].name@ == name@,
    {
        let mut i: usize = 0;
        while i < self.scenarios.len()
            invariant
                i <= self.scenarios@.len(),
                forall|k: int| 0 <= k < i ==> self.scenarios@[k].name@ != name@,
            decreases self.scenarios@.len() - i,
        {
            if self.scenarios[i].name == *name {
                return Some(i);
            }
            i = i + 1;
        }
        None
    }

    /// Adds `scenario`, replacing any scenario of the same name.
    pub fn add_scenario(&mut self, scenario: NetworkScenario)
        requires
            old(self).wf(),
        ensures
            final(self).wf(),
            final(self)@ == old(self)@.insert(scenario.name@, scenario),
    {
        let ghost s = scenario;
        let found = self.find(&scenario.name);
        match found {
            Some(i) => {
                self.scenarios.set(i, scenario);
            },
            None => {
                self.scenarios.push(scenario);
            },
        }
        proof {
            let n = self.scenarios@.len();
            let idx: int = match found {
                Some(i) => i as int,
                None => n - 1,
            };
            assert(self.scenarios@[idx] == s);
            assert forall|a: int| 0 <= a < n && a != idx implies self.scenarios@[a] == old(self).scenarios@[a] by {}
            assert(self.wf());
            assert forall|k: Seq<char>| #[trigger] self@.contains_key(k) == old(self)@.insert(s.name@, s).contains_key(k) by {
                if self@.contains_key(k) {
                    let j = choose|j: int| 0 <= j < n && self.scenarios@[j].name@ == k;
                    if j != idx {
                        assert(old(self).scenarios@[j].name@ == k);
                    }
                }
                if old(self)@.contains_key(k) {
                    let j = choose|j: int| 0 <= j < old(self).scenarios@.len() && old(self).scenarios@[j].name@ == k;
                    if j != idx {
                        assert(self.scenarios@[j].name@ == k);
                    }
                }
                if k == s.name@ {
                    assert(self.scenarios@[idx].name@ == k);
                }
            }
            assert forall|k: Seq<char>| #[trigger] self@.contains_key(k) implies self@[k] == old(self)@.insert(s.name@, s)[k] by {
                let j = choose|j: int| 0 <= j < n && self.scenarios@[j].name@ == k;
                self.lemma_view_at(j);
                if j != idx {
                    old(self).lemma_view_at(j);
                }
            }
            assert(self@ =~= old(self)@.insert(s.name@, s));
        }
    }

    /// The scenario named `name`, if the catalog holds one.
    pub fn get_scenario(&self, name: &str) -> (r: Option<NetworkScenario>)
        requires
            self.wf(),
        ensures
            r == (if self@.contains_key(name@) { Some(self@[name@]) } else { None::<NetworkScenario> }),
    {
        let key = name.to_owned();
        match self.find(&key) {
            Some(i) => {
                proof {
                    self.lemma_view_at(i as int);
                }
                Some(self.scenarios[i].clone())
            },
            None => None,
        }
    }

    /// Every scenario of the catalog, once each.
    pub fn get_all_scenarios(&self) -> (r: Vec<NetworkScenario>)
        requires
            self.wf(),
        ensures
            r@.len() == self@.dom().len(),
            forall|i: int| 0 <= i < r@.len() ==> #[trigger] self@.contains_key(r@[i].name@) && self@[r@[i].name@] == r@[i],
            forall|k: Seq<char>| #[trigger] self@.contains_key(k) ==> exists|i: int| 0 <= i < r@.len() && r@[i].name@ == k,
            forall|i: int, j: int| 0 <= i < j < r@.len() ==> r@[i].name@ != r@[j].name@,
    {
        let mut r: Vec<NetworkScenario> = Vec::new();
        let mut i: usize = 0;
        while i < self.scenarios.len()
            invariant
                self.wf(),
                i <= self.scenarios@.len(),
                r@ == self.scenarios@.subrange(0, i as int),
            decreases self.scenarios@.len() - i,
        {
            r.push(self.scenarios[i].clone());
            i = i + 1;
            assert(r@ =~= self.scenarios@.subrange(0, i as int));
        }
        assert(r@ =~= self.scenarios@);
        proof {
            self.lemma_count();
        }
        assert forall|i: int| 0 <= i < r@.len() implies #[trigger] self@.contains_key(r@[i].name@) && self@[r@[i].name@] == r@[i] by {
            self.lemma_view_at(i);
        }
        r
    }

    /// Number of scenarios in the catalog.
    pub fn scenario_count(&self) -> (r: usize)
        requires
            self.wf(),
        ensures
            r == self@.dom().len(),
    {
        proof {
            self.lemma_count();
        }
        self.scenarios.len()
    }

    proof fn lemma_count(&self)
        requires
            self.wf(),
        ensures
            self@.dom().len() == self.scenarios@.len(),
    {
        let names = self.scenarios@.map_values(|s: NetworkScenario| s.name@);
        assert(names.no_duplicates()) by {
            assert forall|i: int, j: int| 0 <= i < names.len() && 0 <= j < names.len() && i != j implies names[i] != names[j] by {}
        }
        assert(self@.dom() =~= names.to_set()) by {
            assert forall|k: Seq<char>| self@.dom().contains(k) implies names.to_set().contains(k) by {
                let j = choose|j: int| 0 <= j < self.scenarios@.len() && self.scenarios@[j].name@ == k;
                assert(names[j] == k);
            }
            assert forall|k: Seq<char>| names.to_set().contains(k) implies self@.dom().contains(k) by {
                let j = choose|j: int| 0 <= j < names.len() && names[j] == k;
                assert(self.scenarios@[j].name@ == k);
            }
        }
        names.unique_seq_to_set();
    }

    /// Replaces the catalog by the eight predefined scenarios.
    pub fn load_predefined_scenarios(&mut self)
        ensures
            final(self).wf(),
            forall|k: Seq<char>| #[trigger] final(self)@.contains_key(k) <==> predefined_values(k) is Some,
            forall|k: Seq<char>| #[trigger] final(self)@.contains_key(k) ==> final(self)@[k].name@ == k
                && Some(scenario_values(final(self)@[k])) == predefined_values(k)
                && final(self)@[k].description@ == predefined_description(k),
    {
        self.scenarios = Vec::new();
        proof {
            assert(self@ =~= Map::<Seq<char>, NetworkScenario>::empty());
        }
        let s1 = NetworkScenario::new(
            "ideal",
            "Ideal network conditions with low latency, high bandwidth, and minimal packet loss",
            20_000_000, 10_000_000_000, 1_000, 1_000_000, 5_000_000, 1_000_000_000, 2_000, 500_000,
        );
        let ghost g1 = s1;
        self.add_scenario(s1);
        let s2 = NetworkScenario::new(
            "congestion",
            "Network congestion with high latency and reduced bandwidth",
            120_000_000, 2_000_000_000, 20_000, 15_000_000, 50_000_000, 1_000_000_000, 30_000, 10_000_000,
        );
        let ghost g2 = s2;
        self.add_scenario(s2);
        let s3 = NetworkScenario::new(
            "international",
            "International connections with high latency and moderate bandwidth",
            200_000_000, 5_000_000_000, 10_000, 8_000_000, 30_000_000, 1_000_000_000, 10_000, 5_000_000,
        );
        let ghost g3 = s3;
        self.add_scenario(s3);
        let s4 = NetworkScenario::new(
            "wireless_interference",
            "Wireless networks with interference causing packet loss and jitter",
            50_000_000, 3_000_000_000, 50_000, 20_000_000, 20_000_000, 1_500_000_000, 100_000, 15_000_000,
        );
        let ghost g4 = s4;
        self.add_scenario(s4);
        let s5 = NetworkScenario::new(
            "mobile_handover",
            "Mobile devices during cell tower handover with unstable connections",
            80_000_000, 2_000_000_000, 100_000, 25_000_000, 40_000_000, 1_000_000_000, 150_000, 20_000_000,
        );
        let ghost g5 = s5;
        self.add_scenario(s5);
        let s6 = NetworkScenario::new(
            "asymmetric",
            "Asymmetric connections with high download but low upload speeds",
            40_000_000, 8_000_000_000, 10_000, 5_000_000, 10_000_000, 2_000_000_000, 20_000, 3_000_000,
        );
        let ghost g6 = s6;
        self.add_scenario(s6);
        let s7 = NetworkScenario::new(
            "satellite",
            "Satellite connections with very high latency but decent bandwidth",
            500_000_000, 5_000_000_000, 20_000, 10_000_000, 100_000_000, 1_000_000_000, 30_000, 8_000_000,
        );
        let ghost g7 = s7;
        self.add_scenario(s7);
        let s8 = NetworkScenario::new(
            "extreme",
            "Extreme network conditions with high latency, low bandwidth, and high packet loss",
            300_000_000, 500_000_000, 200_000, 50_000_000, 100_000_000, 300_000_000, 200_000, 30_000_000,
        );
        let ghost g8 = s8;
        self.add_scenario(s8);
        proof {
            reveal_strlit("ideal");
            reveal_strlit("congestion");
            reveal_strlit("international");
            reveal_strlit("wireless_interference");
            reveal_strlit("mobile_handover");
            reveal_strlit("asymmetric");
            reveal_strlit("satellite");
            reveal_strlit("extreme");
            assert("ideal"@.len() == 5 && "congestion"@.len() == 10 && "international"@.len() == 13);
            assert("wireless_interference"@.len() == 21 && "mobile_handover"@.len() == 15);
            assert("asymmetric"@.len() == 10 && "satellite"@.len() == 9 && "extreme"@.len() == 7);
            assert("congestion"@[0] != "asymmetric"@[0]);
            assert(self@ == Map::<Seq<char>, NetworkScenario>::empty().insert("ideal"@, g1).insert(
                "congestion"@, g2).insert("international"@, g3).insert("wireless_interference"@, g4).insert(
                "mobile_handover"@, g5).insert("asymmetric"@, g6).insert("satellite"@, g7).insert("extreme"@, g8));
            assert forall|k: Seq<char>| #[trigger] self@.contains_key(k) implies self@[k].name@ == k
                && Some(scenario_values(self@[k])) == predefined_values(k)
                && self@[k].description@ == predefined_description(k) by {
                if k == "ideal"@ {
                    assert(self@[k] == g1);
                } else if k == "congestion"@ {
                    assert(self@[k] == g2);
                } else if k == "international"@ {
                    assert(self@[k] == g3);
                } else if k == "wireless_interference"@ {
                    assert(self@[k] == g4);
                } else if k == "mobile_handover"@ {
                    assert(self@[k] == g5);
                } else if k == "asymmetric"@ {
                    assert(self@[k] == g6);
                } else if k == "satellite"@ {
                    assert(self@[k] == g7);
                } else if k == "extreme"@ {
                    assert(self@[k] == g8);
                } else {
                    assert(false);
                }
            }
        }
    }
}

} // verus!
