//! ZCode's regions. A region is a provider of its own: it has its own accounts
//! and its own service that answers, while logins and plans are one for both.
use crate::json;
use crate::providers::kind::ProviderKind;
use crate::text;
use vstd::prelude::*;
use vstd::string::*;

verus! {

/// Where an account lives.
#[derive(Debug, Clone, Copy, PartialEq, Eq, Structural)]
pub enum Region {
    /// The Chinese mainland.
    Cn,
    /// Everywhere else.
    Intl,
}

impl Default for Region {
    fn default() -> (region: Self)
        ensures
            region == Region::Cn,
    {
        Region::Cn
    }
}

/// A value of the environment without slashes at its end; nothing where it is
/// not set or blank.
pub open spec fn override_in(set: Option<Seq<char>>) -> Option<Seq<char>> {
    match set {
        Some(s) => {
            let inner = text::without_end(text::trimmed(s), '/');
            if inner.len() > 0 {
                Some(inner)
            } else {
                None
            }
        },
        None => None,
    }
}

impl Region {
    /// The provider that a region is.
    pub open spec fn spec_kind(self) -> ProviderKind {
        match self {
            Region::Cn => ProviderKind::Zcode,
            Region::Intl => ProviderKind::ZcodeIntl,
        }
    }

    /// The provider that a region is.
    pub fn kind(self) -> (kind: ProviderKind)
        ensures
            kind == self.spec_kind(),
    {
        match self {
            Region::Cn => ProviderKind::Zcode,
            Region::Intl => ProviderKind::ZcodeIntl,
        }
    }

    /// The id of the provider.
    pub open spec fn spec_provider_id(self) -> Seq<char> {
        match self {
            Region::Cn => "zcode"@,
            Region::Intl => "zcode-intl"@,
        }
    }

    /// The id of the provider.
    pub fn provider_id(self) -> (id: &'static str)
        ensures
            id@ == self.spec_provider_id(),
    {
        match self {
            Region::Cn => "zcode",
            Region::Intl => "zcode-intl",
        }
    }

    /// The region that the id of a provider stands for.
    pub open spec fn with_id(id: Seq<char>) -> Option<Region> {
        if id == "zcode"@ {
            Some(Region::Cn)
        } else if id == "zcode-intl"@ {
            Some(Region::Intl)
        } else {
            None
        }
    }

    /// The region that the id of a provider stands for.
    pub fn from_provider_id(provider_id: &str) -> (region: Option<Self>)
        ensures
            region == Self::with_id(provider_id@),
    {
        if text::same(provider_id, "zcode") {
            Some(Region::Cn)
        } else if text::same(provider_id, "zcode-intl") {
            Some(Region::Intl)
        } else {
            None
        }
    }

    /// The region that a provider is.
    pub open spec fn of_kind(kind: ProviderKind) -> Option<Region> {
        match kind {
            ProviderKind::Zcode => Some(Region::Cn),
            ProviderKind::ZcodeIntl => Some(Region::Intl),
            _ => None,
        }
    }

    /// The region that a provider is.
    pub fn from_kind(kind: ProviderKind) -> (region: Option<Self>)
        ensures
            region == Self::of_kind(kind),
    {
        match kind {
            ProviderKind::Zcode => Some(Region::Cn),
            ProviderKind::ZcodeIntl => Some(Region::Intl),
            _ => None,
        }
    }

    /// The name of the region for people.
    pub open spec fn spec_label(self) -> Seq<char> {
        match self {
            Region::Cn => "国内版"@,
            Region::Intl => "国际版"@,
        }
    }

    /// The name of the region for people.
    pub fn label(self) -> (label: &'static str)
        ensures
            label@ == self.spec_label(),
    {
        match self {
            Region::Cn => "国内版",
            Region::Intl => "国际版",
        }
    }

    /// The upstream's name of the provider.
    pub open spec fn spec_upstream_provider(self) -> Seq<char> {
        match self {
            Region::Cn => "bigmodel"@,
            Region::Intl => "zai"@,
        }
    }

    /// The upstream's name of the provider.
    pub fn upstream_provider(self) -> (name: &'static str)
        ensures
            name@ == self.spec_upstream_provider(),
    {
        match self {
            Region::Cn => "bigmodel",
            Region::Intl => "zai",
        }
    }

    /// The base of the services for logins and plans.
    pub open spec fn spec_zcode_origin(self) -> Seq<char> {
        "https://zcode.z.ai"@
    }

    /// The base of the services for logins and plans, one for both regions.
    pub fn zcode_origin(self) -> (base: &'static str)
        ensures
            base@ == self.spec_zcode_origin(),
    {
        "https://zcode.z.ai"
    }

    /// The base of the service that answers.
    pub open spec fn spec_openai_base_url(self) -> Seq<char> {
        match self {
            Region::Cn => "https://open.bigmodel.cn/api/coding/paas/v4"@,
            Region::Intl => "https://api.z.ai/api/coding/paas/v4"@,
        }
    }

    /// The base of the service that answers.
    pub fn openai_base_url(self) -> (base: &'static str)
        ensures
            base@ == self.spec_openai_base_url(),
    {
        match self {
            Region::Cn => "https://open.bigmodel.cn/api/coding/paas/v4",
            Region::Intl => "https://api.z.ai/api/coding/paas/v4",
        }
    }

    /// The base of the service that answers in Anthropic's form.
    pub fn anthropic_base_url(self) -> (base: &'static str)
        ensures
            base@ == match self {
                Region::Cn => "https://open.bigmodel.cn/api/anthropic"@,
                Region::Intl => "https://api.z.ai/api/anthropic"@,
            },
    {
        match self {
            Region::Cn => "https://open.bigmodel.cn/api/anthropic",
            Region::Intl => "https://api.z.ai/api/anthropic",
        }
    }

    /// The base of the open platform.
    pub fn biz_host(self) -> (base: &'static str)
        ensures
            base@ == match self {
                Region::Cn => "https://open.bigmodel.cn"@,
                Region::Intl => "https://api.z.ai"@,
            },
    {
        match self {
            Region::Cn => "https://open.bigmodel.cn",
            Region::Intl => "https://api.z.ai",
        }
    }

    /// What the names of the region's settings in the environment begin with.
    pub open spec fn spec_env_prefix(self) -> Seq<char> {
        match self {
            Region::Cn => "ZCODE_"@,
            Region::Intl => "ZCODE_INTL_"@,
        }
    }

    /// What the names of the region's settings in the environment begin with.
    pub fn env_prefix(self) -> (prefix: &'static str)
        ensures
            prefix@ == self.spec_env_prefix(),
    {
        match self {
            Region::Cn => "ZCODE_",
            Region::Intl => "ZCODE_INTL_",
        }
    }

    /// The name of a setting of the region in the environment.
    pub fn env_name(self, name: &str) -> (key: String)
        ensures
            key@ == self.spec_env_prefix() + name@,
    {
        let mut key = text::owned(self.env_prefix());
        key.append(name);
        key
    }

    /// What a setting of the environment overrides, given its value where it is
    /// set.
    pub fn env_override(self, set: Option<&str>) -> (value: Option<String>)
        ensures
            json::owned_text(value) == override_in(json::opt_text(set)),
    {
        match set {
            Some(s) => {
                let inner = text::trim_end_of(text::trim(s), '/');
                if inner.is_empty() {
                    None
                } else {
                    Some(text::owned(inner))
                }
            },
            None => None,
        }
    }

    /// What the ids of the region's accounts begin with.
    pub open spec fn spec_account_id_prefix(self) -> Seq<char> {
        match self {
            Region::Cn => "zcode-user-"@,
            Region::Intl => "zcode-intl-user-"@,
        }
    }

    /// What the ids of the region's accounts begin with.
    pub fn account_id_prefix(self) -> (prefix: &'static str)
        ensures
            prefix@ == self.spec_account_id_prefix(),
    {
        match self {
            Region::Cn => "zcode-user-",
            Region::Intl => "zcode-intl-user-",
        }
    }
}

/// The id and the kind of a region's provider both stand for the region, and
/// nothing else stands for it.
pub proof fn region_identities_round_trip(region: Region, id: Seq<char>, kind: ProviderKind)
    ensures
        Region::with_id(id) == Some(region) <==> id == region.spec_provider_id(),
        Region::of_kind(kind) == Some(region) <==> kind == region.spec_kind(),
{
    reveal_strlit("zcode");
    reveal_strlit("zcode-intl");
    assert("zcode"@.len() != "zcode-intl"@.len());
}

} // verus!
