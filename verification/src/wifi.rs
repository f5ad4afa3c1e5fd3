//! The summary of one Wi-Fi scan that the UI shows.
use vstd::prelude::*;

verus! {

/// State of the boot-time Wi-Fi scan.
#[derive(Clone, Copy, Debug, PartialEq, Eq, Structural)]
pub enum WifiScanStatus {
    Pending,
    Ready,
    Failed,
}

/// What the UI shows of a Wi-Fi scan.
#[derive(Clone, Copy, Debug, PartialEq, Eq, Structural)]
pub struct WifiSnapshot {
    pub status: WifiScanStatus,
    pub ap_count: u8,
    pub best_rssi: i8,
    pub best_channel: u8,
}

/// One access point found by a scan: what the summary reads of it.
#[derive(Clone, Copy, Debug, PartialEq, Eq, Structural)]
pub struct ScanEntry {
    /// Signal strength in dBm.
    pub signal_strength: i8,
    pub channel: u8,
}

/// `j` is the strongest access point of `aps`, the last one where several are
/// equally strong.
pub open spec fn is_best_entry(aps: Seq<ScanEntry>, j: int) -> bool {
    &&& 0 <= j < aps.len()
    &&& forall|k: int| 0 <= k < aps.len() ==> #[trigger] aps[k].signal_strength <= aps[j].signal_strength
    &&& forall|k: int| j < k < aps.len() ==> #[trigger] aps[k].signal_strength < aps[j].signal_strength
}

impl WifiSnapshot {
    /// The snapshot before any scan has finished.
    pub fn pending() -> (s: Self)
        ensures
            s == (WifiSnapshot {
                status: WifiScanStatus::Pending,
                ap_count: 0,
                best_rssi: 0,
                best_channel: 0,
            }),
    {
        WifiSnapshot { status: WifiScanStatus::Pending, ap_count: 0, best_rssi: 0, best_channel: 0 }
    }

    /// The snapshot of a scan that could not be run or did not complete.
    pub fn failed() -> (s: Self)
        ensures
            s == (WifiSnapshot {
                status: WifiScanStatus::Failed,
                ap_count: 0,
                best_rssi: 0,
                best_channel: 0,
            }),
    {
        WifiSnapshot { status: WifiScanStatus::Failed, ..WifiSnapshot::pending() }
    }

    /// The snapshot of a completed scan: the number of access points, saturated
    /// at 255, and the signal strength and channel of the strongest one (the last
    /// of equally strong ones); 0 and 0 when none was found.
    pub fn from_scan(access_points: &[ScanEntry]) -> (s: Self)
        ensures
            s.status == WifiScanStatus::Ready,
            s.ap_count as int == (if access_points@.len() < 255 {
                access_points@.len() as int
            } else {
                255
            }),
            access_points@.len() == 0 ==> s.best_rssi == 0 && s.best_channel == 0,
            access_points@.len() > 0 ==> exists|j: int|
                #[trigger] is_best_entry(access_points@, j) && s.best_rssi
                    == access_points@[j].signal_strength && s.best_channel
                    == access_points@[j].channel,
    {
        let n = access_points.len();
        let ap_count: u8 = if n < 255 {
            n as u8
        } else {
            255
        };
        let mut snapshot = WifiSnapshot {
            status: WifiScanStatus::Ready,
            ap_count,
            best_rssi: 0,
            best_channel: 0,
        };
        if n > 0 {
            let mut best: usize = 0;
            let mut k: usize = 1;
            while k < n
                invariant
                    n == access_points@.len(),
                    1 <= k <= n,
                    best < k,
                    forall|i: int|
                        0 <= i < k ==> #[trigger] access_points@[i].signal_strength
                            <= access_points@[best as int].signal_strength,
                    forall|i: int|
                        best < i < k ==> #[trigger] access_points@[i].signal_strength
                            < access_points@[best as int].signal_strength,
                decreases n - k,
            {
                if access_points[k].signal_strength >= access_points[best].signal_strength {
                    best = k;
                }
                k = k + 1;
            }
            assert(is_best_entry(access_points@, best as int));
            snapshot.best_rssi = access_points[best].signal_strength;
            snapshot.best_channel = access_points[best].channel;
        }
        snapshot
    }

    /// The scan state as shown on the screen.
    pub fn status_text(self) -> (text: &'static str)
        ensures
            self.status == WifiScanStatus::Pending ==> text@ == "扫描中"@,
            self.status == WifiScanStatus::Ready && self.ap_count == 0 ==> text@ == "未发现"@,
            self.status == WifiScanStatus::Ready && self.ap_count != 0 ==> text@ == "已扫描"@,
            self.status == WifiScanStatus::Failed ==> text@ == "扫描失败"@,
    {
        match self.status {
            WifiScanStatus::Pending => "扫描中",
            WifiScanStatus::Ready if self.ap_count == 0 => "未发现",
            WifiScanStatus::Ready => "已扫描",
            WifiScanStatus::Failed => "扫描失败",
        }
    }
}

} // verus!
