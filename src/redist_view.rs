use vstd::prelude::*;
use crate::redist::{RedistCategory, RedistItem};

verus! {

/// The state of the redistributable cleaner: which categories are chosen, and
/// what the last scan and clean produced.
#[derive(Debug)]
pub struct RedistViewState {
    pub category_common: bool,
    pub category_directx: bool,
    pub category_dotnet: bool,
    pub category_vcredist: bool,
    pub category_installers: bool,
    pub is_scanning: bool,
    pub scan_results: Option<Vec<RedistItem>>,
    pub last_clean_log: Option<Vec<String>>,
}

/// The events of the redistributable cleaner.
#[derive(Debug)]
pub enum RedistMessage {
    ToggleCommon(bool),
    ToggleDirectX(bool),
    ToggleDotNet(bool),
    ToggleVCRedist(bool),
    ToggleInstallers(bool),
    StartScan,
    ScanFinished(Vec<RedistItem>),
    CleanFoundItems,
    CleanFinished(Vec<String>),
    Close,
}

impl Default for RedistViewState {
    /// Every category chosen but the other installers, which are riskier.
    fn default() -> (r: RedistViewState)
        ensures
            r.category_common && r.category_directx && r.category_dotnet && r.category_vcredist,
            !r.category_installers,
            !r.is_scanning,
            r.scan_results is None,
            r.last_clean_log is None,
    {
        RedistViewState {
            category_common: true,
            category_directx: true,
            category_dotnet: true,
            category_vcredist: true,
            category_installers: false,
            is_scanning: false,
            scan_results: None,
            last_clean_log: None,
        }
    }
}

pub open spec fn chosen(on: bool, c: RedistCategory) -> Seq<RedistCategory> {
    if on {
        seq![c]
    } else {
        Seq::empty()
    }
}

/// The chosen categories, in the order of the table.
pub open spec fn active_categories(s: RedistViewState) -> Seq<RedistCategory> {
    chosen(s.category_common, RedistCategory::CommonRedist) + chosen(
        s.category_directx,
        RedistCategory::DirectX,
    ) + chosen(s.category_dotnet, RedistCategory::DotNet) + chosen(
        s.category_vcredist,
        RedistCategory::VCRedist,
    ) + chosen(s.category_installers, RedistCategory::Installers)
}

impl RedistViewState {
    /// The categories that a scan should look for.
    pub fn get_active_categories(&self) -> (r: Vec<RedistCategory>)
        ensures
            r@ == active_categories(*self),
    {
        let mut cats: Vec<RedistCategory> = Vec::new();
        if self.category_common {
            cats.push(RedistCategory::CommonRedist);
        }
        let ghost after_common = cats@;
        if self.category_directx {
            cats.push(RedistCategory::DirectX);
        }
        let ghost after_directx = cats@;
        if self.category_dotnet {
            cats.push(RedistCategory::DotNet);
        }
        let ghost after_dotnet = cats@;
        if self.category_vcredist {
            cats.push(RedistCategory::VCRedist);
        }
        let ghost after_vcredist = cats@;
        if self.category_installers {
            cats.push(RedistCategory::Installers);
        }
        proof {
            assert(after_common =~= chosen(self.category_common, RedistCategory::CommonRedist));
            assert(after_directx =~= after_common + chosen(self.category_directx, RedistCategory::DirectX));
            assert(after_dotnet =~= after_directx + chosen(self.category_dotnet, RedistCategory::DotNet));
            assert(after_vcredist =~= after_dotnet + chosen(self.category_vcredist, RedistCategory::VCRedist));
            assert(cats@ =~= after_vcredist + chosen(self.category_installers, RedistCategory::Installers));
        }
        cats
    }
}

} // verus!
