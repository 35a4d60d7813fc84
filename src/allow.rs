use vstd::prelude::*;

verus! {

/// The one destination that the relay forwards to by default.
pub const DEFAULT_HOST: &'static str = "https://api.openai.com/v1/completions";

/// The set of upstream destinations that the relay may contact, matched as
/// exact strings.
pub struct AllowList {
    hosts: Vec<String>,
}

impl View for AllowList {
    type V = Seq<Seq<char>>;

    closed spec fn view(&self) -> Seq<Seq<char>> {
        self.hosts@.map_values(|h: String| h@)
    }
}

impl AllowList {
    /// An allow-list of exactly the given destinations.
    pub fn new(hosts: Vec<String>) -> (r: AllowList)
        ensures
            r@ == hosts@.map_values(|h: String| h@),
    {
        AllowList { hosts }
    }

    /// The allow-list that holds the default destination alone.
    pub fn standard() -> (r: AllowList)
        ensures
            r@ == seq![DEFAULT_HOST@],
    {
        let mut hosts: Vec<String> = Vec::new();
        hosts.push(String::from_str(DEFAULT_HOST));
        let r = AllowList { hosts };
        assert(r@ =~= seq![DEFAULT_HOST@]);
        r
    }

    /// Whether `destination` is on the list.
    pub fn is_permitted(&self, destination: &str) -> (r: bool)
        ensures
            r == self@.contains(destination@),
    {
        let target = String::from_str(destination);
        let mut i: usize = 0;
        while i < self.hosts.len()
            invariant
                0 <= i <= self.hosts@.len(),
                target@ == destination@,
                forall|j: int| 0 <= j < i ==> self@[j] != destination@,
            decreases self.hosts@.len() - i,
        {
            if self.hosts[i] == target {
                assert(self@[i as int] == destination@);
                return true;
            }
            i = i + 1;
        }
        false
    }
}

} // verus!
