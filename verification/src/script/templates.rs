//! The two script templates. Placeholders read `{{NAME}}` and are filled by the
//! renderer; everything else is written to disk as it stands.

use vstd::prelude::*;
use crate::text::append_str;

verus! {

/// The probe: read-only, prints one JSON document on standard output and nothing else
/// there. Its one placeholder is the render time.
pub const PROBE_TEMPLATE: &'static str = r##"#Requires -Version 5.1
# generated by layoutswap: probe
# rendered {{RENDERED_AT}}
# Prints one JSON document on standard output and nothing else there. Read-only.
# Failures go to standard error with exit code 1.

$ErrorActionPreference = 'Stop'

if (-not ('LayoutswapProbe.Api' -as [type])) {
    Add-Type -TypeDefinition @'
using System;
using System.Runtime.InteropServices;
namespace LayoutswapProbe {
    public static class Api {
        [DllImport("user32.dll")] public static extern int GetDisplayConfigBufferSizes(uint flags, out uint paths, out uint modes);
        [DllImport("user32.dll")] public static extern int QueryDisplayConfig(uint flags, ref uint paths, byte[] pathArray, ref uint modes, byte[] modeArray, IntPtr topology);
        [DllImport("user32.dll")] public static extern int DisplayConfigGetDeviceInfo(byte[] packet);
        public const int PathSize = 72;
        public const int ModeSize = 64;
        public static byte[] TargetName(byte[] path, int offset) {
            byte[] p = new byte[420];
            BitConverter.GetBytes(2).CopyTo(p, 0);
            BitConverter.GetBytes(420).CopyTo(p, 4);
            Array.Copy(path, offset + 20, p, 8, 12);
            DisplayConfigGetDeviceInfo(p);
            return p;
        }
        public static byte[] AdapterName(byte[] path, int offset) {
            byte[] p = new byte[532];
            BitConverter.GetBytes(4).CopyTo(p, 0);
            BitConverter.GetBytes(532).CopyTo(p, 4);
            Array.Copy(path, offset + 20, p, 8, 8);
            DisplayConfigGetDeviceInfo(p);
            return p;
        }
        public static byte[] SourceName(byte[] path, int offset) {
            byte[] p = new byte[84];
            BitConverter.GetBytes(1).CopyTo(p, 0);
            BitConverter.GetBytes(84).CopyTo(p, 4);
            Array.Copy(path, offset, p, 8, 12);
            DisplayConfigGetDeviceInfo(p);
            return p;
        }
    }
}
'@
}

function Read-Text([byte[]]$bytes, [int]$offset, [int]$chars) {
    [Text.Encoding]::Unicode.GetString($bytes, $offset, $chars * 2).TrimEnd([char]0)
}

try {
    [uint32]$pathCount = 0; [uint32]$modeCount = 0
    $rc = [LayoutswapProbe.Api]::GetDisplayConfigBufferSizes(2, [ref]$pathCount, [ref]$modeCount)
    if ($rc -ne 0) { throw "GetDisplayConfigBufferSizes failed with error $rc" }
    $paths = New-Object byte[] ($pathCount * [LayoutswapProbe.Api]::PathSize)
    $modes = New-Object byte[] ($modeCount * [LayoutswapProbe.Api]::ModeSize)
    $rc = [LayoutswapProbe.Api]::QueryDisplayConfig(2, [ref]$pathCount, $paths, [ref]$modeCount, $modes, [IntPtr]::Zero)
    if ($rc -ne 0) { throw "QueryDisplayConfig failed with error $rc" }

    $monitors = @{}
    $activePaths = New-Object System.Collections.Generic.List[int]
    for ($i = 0; $i -lt $pathCount; $i++) {
        $o = $i * [LayoutswapProbe.Api]::PathSize
        $target = [LayoutswapProbe.Api]::TargetName($paths, $o)
        $devicePath = Read-Text $target 164 128
        if (-not $devicePath -or $monitors.ContainsKey($devicePath)) { continue }
        $active = ([BitConverter]::ToUInt32($paths, $o + 68) -band 1) -eq 1
        $available = [BitConverter]::ToInt32($paths, $o + 64) -ne 0
        $adapter = [LayoutswapProbe.Api]::AdapterName($paths, $o)
        $m = [ordered]@{
            devicePath = $devicePath
            friendlyName = Read-Text $target 36 64
            gdiName = ''
            adapterDevicePath = Read-Text $adapter 20 128
            outputTechnology = [BitConverter]::ToUInt32($target, 20)
            connectorInstance = [BitConverter]::ToUInt32($target, 32)
            active = $active
            available = ($active -or $available)
            hasMode = $false
            rotation = [BitConverter]::ToUInt32($paths, $o + 36)
            refreshNum = [BitConverter]::ToUInt32($paths, $o + 44)
            refreshDen = [BitConverter]::ToUInt32($paths, $o + 48)
        }
        if ($active) {
            $m.gdiName = Read-Text ([LayoutswapProbe.Api]::SourceName($paths, $o)) 20 32
            $sourceMode = [BitConverter]::ToUInt32($paths, $o + 16) -band 0xFFFF
            if ($sourceMode -ne 0xFFFF -and $sourceMode -lt $modeCount) {
                $mo = $sourceMode * [LayoutswapProbe.Api]::ModeSize
                $m.hasMode = $true
                $m.width = [BitConverter]::ToUInt32($modes, $mo + 16)
                $m.height = [BitConverter]::ToUInt32($modes, $mo + 20)
                $m.x = [BitConverter]::ToInt32($modes, $mo + 28)
                $m.y = [BitConverter]::ToInt32($modes, $mo + 32)
            }
            $activePaths.Add($i)
        }
        $monitors[$devicePath] = $m
    }

    $report = [ordered]@{
        probedAt = (Get-Date).ToString('o')
        monitors = @($monitors.Values)
        arrangement = [ordered]@{
            paths = [Convert]::ToBase64String($paths)
            modes = [Convert]::ToBase64String($modes)
            sourceAdapters = @($activePaths | ForEach-Object { Read-Text ([LayoutswapProbe.Api]::AdapterName($paths, $_ * [LayoutswapProbe.Api]::PathSize)) 20 128 })
            targetAdapters = @($activePaths | ForEach-Object { Read-Text ([LayoutswapProbe.Api]::AdapterName($paths, $_ * [LayoutswapProbe.Api]::PathSize)) 20 128 })
            modeAdapters = @()
        }
    }
    [Console]::OutputEncoding = [Text.Encoding]::UTF8
    $report | ConvertTo-Json -Depth 6 -Compress
    exit 0
} catch {
    [Console]::Error.WriteLine("probe failed: $($_.Exception.Message)")
    exit 1
}
"##;

/// The switch script, in the parts its renderer and its laws name: the opening lines,
/// the step header line, the settings, the app root, the three row numbers, the two
/// monitor lists, and the body with the embedded data and the steps. Joined in this
/// order they are the whole template.
pub const SWITCH_OPENING: &'static str = r##"#Requires -Version 5.1
# generated by layoutswap: switch to {{LAYOUT_NAME}}
# rendered {{RENDERED_AT}} with template version {{TEMPLATE_VERSION}}
"##;

/// The line that lists every row of the switch.
pub const SWITCH_HEADER_LINE: &'static str = "# Steps: {{STEPS_HEADER}}\n";

/// User settings and the layout's identity, up to the app root.
pub const SWITCH_SETTINGS: &'static str = r##"# Exit codes: 0 applied, 1 could not apply, 2 needed a user action.
# Progress lines read "[step/of] status text"; every other line is log.
param(
    [switch]$Pause,
    [switch]$ValidateOnly
)

#-----------------------------------------------------------------------------
# USER SETTINGS
#-----------------------------------------------------------------------------
$DropWaitSeconds      = {{DROP_WAIT_SECONDS}}
$AvailableWaitSeconds = {{AVAILABLE_WAIT_SECONDS}}
$OnApplyFailure       = '{{ON_APPLY_FAILURE}}'
$AvailableSettleSeconds = 3
$ApplySettleSeconds     = 2

#-----------------------------------------------------------------------------
# Layout
#-----------------------------------------------------------------------------
$LayoutName    = '{{LAYOUT_NAME_PS}}'
$LayoutId      = '{{LAYOUT_ID}}'
$CapturedAt    = '{{CAPTURED_AT}}'
"##;

/// The app root, where the lock file lives.
pub const SWITCH_ROOT_LINE: &'static str = "$AppRoot       = '{{APP_ROOT_PS}}'\n";

/// The number of rows.
pub const SWITCH_COUNT_LINE: &'static str = "$StepCount     = {{STEP_COUNT}}\n";

/// The row of Apply arrangement.
pub const SWITCH_APPLY_LINE: &'static str = "$ApplyStep     = {{APPLY_STEP}}\n";

/// The row of Verify, always the last.
pub const SWITCH_VERIFY_LINE: &'static str = "$VerifyStep    = {{VERIFY_STEP}}\n";

/// The monitors the layout turns on, one entry per line.
pub const SWITCH_ON_LIST: &'static str = "$MonitorsOn    = @(\n{{MONITORS_ON_PS}}\n)\n";

/// The monitors the layout leaves off, one entry per line.
pub const SWITCH_OFF_LIST: &'static str = "$MonitorsOff   = @(\n{{MONITORS_OFF_PS}}\n)\n";

/// The embedded layout data, then the steps and the switch itself.
pub const SWITCH_BODY: &'static str = r##"
#-----------------------------------------------------------------------------
# Embedded layout data
#-----------------------------------------------------------------------------
$ArrangementJson = @'
{{ARRANGEMENT_JSON}}
'@
$SummaryJson = @'
{{SUMMARY_JSON}}
'@

$ErrorActionPreference = 'Stop'
[Console]::OutputEncoding = [Text.Encoding]::UTF8
$LogPath  = Join-Path $PSScriptRoot 'switch.log'
$LockPath = Join-Path $AppRoot 'switch.lock'
$ArrangeAgain = 'capture the layout again, then switch'

function Write-Log([string]$text) {
    Write-Output $text
    Add-Content -Path $LogPath -Value ('{0}  {1}' -f (Get-Date -Format 'yyyy-MM-dd HH:mm:ss'), $text) -Encoding UTF8
}

function Write-Step([int]$step, [string]$status, [string]$text) {
    Write-Log ("[{0}/{1}] {2} {3}" -f $step, $StepCount, $status, $text)
}

function Write-Failure([int]$step, [string]$name, [string]$action, [string]$reason) {
    Write-Step $step 'failed' ('{0}: {1}; {2}' -f $name, $action, $reason)
}

function Exit-Switch([int]$code) {
    Remove-Item -Path $LockPath -ErrorAction SilentlyContinue
    Write-Log "Exit code $code"
    if ($Pause) { Read-Host 'Press Enter to close' | Out-Null }
    exit $code
}

if (-not ([System.Management.Automation.PSTypeName]'LayoutswapSwitch.Api').Type) {
    Add-Type -TypeDefinition @'
using System;
using System.Collections.Generic;
using System.Runtime.InteropServices;
namespace LayoutswapSwitch {
    public static class Api {
        public const uint SDC_TOPOLOGY_EXTEND = 0x4;
        public const uint SDC_APPLY = 0x80;
        public const uint SDC_VALIDATE = 0x40;
        public const uint SDC_USE_SUPPLIED_DISPLAY_CONFIG = 0x20;
        public const uint SDC_SAVE_TO_DATABASE = 0x200;
        public const uint SDC_ALLOW_CHANGES = 0x400;
        [DllImport("user32.dll")] static extern int GetDisplayConfigBufferSizes(uint flags, out uint paths, out uint modes);
        [DllImport("user32.dll")] static extern int QueryDisplayConfig(uint flags, ref uint paths, byte[] pathArray, ref uint modes, byte[] modeArray, IntPtr topology);
        [DllImport("user32.dll")] static extern int DisplayConfigGetDeviceInfo(byte[] packet);
        [DllImport("user32.dll")] static extern int SetDisplayConfig(uint paths, byte[] pathArray, uint modes, byte[] modeArray, uint flags);
        [DllImport("dxva2.dll", SetLastError = true)] static extern bool GetNumberOfPhysicalMonitorsFromHMONITOR(IntPtr monitor, out uint count);
        [DllImport("dxva2.dll", SetLastError = true)] static extern bool GetPhysicalMonitorsFromHMONITOR(IntPtr monitor, uint count, [Out] IntPtr[] handles);
        [DllImport("dxva2.dll", SetLastError = true)] static extern bool SetVCPFeature(IntPtr handle, byte code, uint value);
        [DllImport("dxva2.dll", SetLastError = true)] static extern bool GetVCPFeatureAndVCPFeatureReply(IntPtr handle, byte code, IntPtr type, out uint current, out uint maximum);
        [DllImport("user32.dll")] static extern IntPtr MonitorFromPoint(POINT point, uint flags);
        [StructLayout(LayoutKind.Sequential)] public struct POINT { public int X; public int Y; }
        public const int PathSize = 72;
        public const int ModeSize = 64;

        public static List<byte[]> BytesToPaths(byte[] b) {
            var list = new List<byte[]>();
            for (int i = 0; i + PathSize <= b.Length; i += PathSize) {
                var p = new byte[PathSize]; Array.Copy(b, i, p, 0, PathSize); list.Add(p);
            }
            return list;
        }

        static string AdapterPath(byte[] luid) {
            byte[] p = new byte[532];
            BitConverter.GetBytes(4).CopyTo(p, 0);
            BitConverter.GetBytes(532).CopyTo(p, 4);
            Array.Copy(luid, 0, p, 8, 8);
            DisplayConfigGetDeviceInfo(p);
            return System.Text.Encoding.Unicode.GetString(p, 20, 256).TrimEnd('\0');
        }

        public static Dictionary<string, byte[]> CurrentAdapters() {
            uint pc, mc;
            GetDisplayConfigBufferSizes(2, out pc, out mc);
            var paths = new byte[pc * PathSize]; var modes = new byte[mc * ModeSize];
            QueryDisplayConfig(2, ref pc, paths, ref mc, modes, IntPtr.Zero);
            var map = new Dictionary<string, byte[]>(StringComparer.OrdinalIgnoreCase);
            for (int i = 0; i < pc; i++) {
                var luid = new byte[8]; Array.Copy(paths, i * PathSize + 20, luid, 0, 8);
                string path = AdapterPath(luid);
                if (path.Length > 0) { map[path] = luid; }
            }
            return map;
        }

        public static void Remap(byte[] buffer, int size, int offset, string[] adapters, Dictionary<string, byte[]> current) {
            for (int i = 0; i < adapters.Length && (i + 1) * size <= buffer.Length; i++) {
                byte[] luid;
                if (current.TryGetValue(adapters[i], out luid)) { Array.Copy(luid, 0, buffer, i * size + offset, 8); }
            }
        }

        public static int Apply(byte[] paths, byte[] modes, bool validateOnly) {
            uint flags = SDC_USE_SUPPLIED_DISPLAY_CONFIG | SDC_ALLOW_CHANGES | (validateOnly ? SDC_VALIDATE : SDC_APPLY | SDC_SAVE_TO_DATABASE);
            return SetDisplayConfig((uint)(paths.Length / PathSize), paths, (uint)(modes.Length / ModeSize), modes, flags);
        }

        public static int Extend() {
            return SetDisplayConfig(0, null, 0, null, SDC_TOPOLOGY_EXTEND | SDC_APPLY);
        }

        static IntPtr Physical(int x, int y) {
            var pt = new POINT { X = x, Y = y };
            IntPtr monitor = MonitorFromPoint(pt, 0);
            uint count;
            if (monitor == IntPtr.Zero || !GetNumberOfPhysicalMonitorsFromHMONITOR(monitor, out count) || count != 1) { return IntPtr.Zero; }
            var handles = new IntPtr[2];
            if (!GetPhysicalMonitorsFromHMONITOR(monitor, 1, handles)) { return IntPtr.Zero; }
            return handles[1];
        }

        public static bool SendInput(int x, int y, uint code) {
            IntPtr h = Physical(x, y);
            return h != IntPtr.Zero && SetVCPFeature(h, 0x60, code);
        }

        public static int ReadInput(int x, int y) {
            IntPtr h = Physical(x, y);
            uint current, maximum;
            if (h == IntPtr.Zero || !GetVCPFeatureAndVCPFeatureReply(h, 0x60, IntPtr.Zero, out current, out maximum)) { return -1; }
            return (int)(current & 0xFF);
        }
    }
}
'@
}

$Arrangement = $ArrangementJson | ConvertFrom-Json
$Summary = $SummaryJson | ConvertFrom-Json

function Get-Live {
    $probe = Join-Path $AppRoot 'probe.ps1'
    $json = & powershell.exe -NoProfile -NonInteractive -ExecutionPolicy Bypass -File $probe
    if ($LASTEXITCODE -ne 0) { return $null }
    ($json | Out-String) | ConvertFrom-Json
}

function Get-State($live, [string]$devicePath) {
    $m = @($live.monitors | Where-Object { $_.devicePath -eq $devicePath }) | Select-Object -First 1
    if (-not $m) { return 'Absent' }
    if ($m.active) { return 'Active' }
    if ($m.available) { return 'Available' }
    'Absent'
}

function Wait-Available([string]$devicePath, [string]$label, [int]$seconds) {
    for ($left = $seconds; $left -gt 0; $left--) {
        if ((Get-State (Get-Live) $devicePath) -ne 'Absent') { Start-Sleep -Seconds $AvailableSettleSeconds; return $true }
        Write-Log ('  {0} Waiting for {1}: press the input button on {1}; {2} s left of {3} s' -f 'needs-you', $label, $left, $seconds)
        Start-Sleep -Seconds 1
    }
    $false
}

function Send-InputSource([int]$Row, [string]$Sentence, [string]$DevicePath, [string]$Label, [uint32]$Code, [string]$InputName, [string]$Wait, [string]$Side) {
    if ($ValidateOnly) { Write-Step $Row 'skipped' ('{0}: validated only' -f $Sentence); return }
    $m = @($Summary.monitors | Where-Object { $_.devicePath -eq $DevicePath }) | Select-Object -First 1
    if (-not $m -or (Get-State (Get-Live) $DevicePath) -ne 'Active') {
        Write-Step $Row 'skipped' ('{0}: {1} is not Active' -f $Sentence, $Label); return
    }
    Write-Step $Row 'running' $Sentence
    if (-not [LayoutswapSwitch.Api]::SendInput($m.x, $m.y, $Code)) {
        Write-Log ('  {0} did not take the input over DDC-CI' -f $Label)
    }
    switch ($Wait) {
        'drop' {
            for ($left = $DropWaitSeconds; $left -gt 0; $left--) {
                if ([LayoutswapSwitch.Api]::ReadInput($m.x, $m.y) -eq $Code) { break }
                if ((Get-State (Get-Live) $DevicePath) -eq 'Absent') { break }
                Start-Sleep -Seconds 1
            }
        }
        'available' { [void](Wait-Available $DevicePath $Label $AvailableWaitSeconds) }
    }
    Write-Step $Row 'done' $Sentence
}

function Stop-Apply([string]$action, [string]$reason, [int]$rc) {
    if ($OnApplyFailure -eq 'extend' -and -not $ValidateOnly) {
        $extended = [LayoutswapSwitch.Api]::Extend()
        if ($extended -eq 0) {
            Write-Failure $ApplyStep 'Apply arrangement' $action ("Windows Extend was applied instead: {0} (Windows error {1})" -f $reason, $rc)
            Exit-Switch 1
        }
    }
    Write-Failure $ApplyStep 'Apply arrangement' $action ('{0} (Windows error {1})' -f $reason, $rc)
    Exit-Switch 1
}

#-----------------------------------------------------------------------------
# Lock
#-----------------------------------------------------------------------------
Write-Log ''
Write-Log "=== Switch to $LayoutName ==="
if (Test-Path $LockPath) {
    $holder = (Get-Content $LockPath | Where-Object { $_ -like 'layout=*' } | Select-Object -Last 1) -replace '^layout=', ''
    $procId = (Get-Content $LockPath | Where-Object { $_ -like 'pid=*' } | Select-Object -First 1) -replace '^pid=', ''
    Write-Log ("Wait for the switch to {0} to finish, then try again. If process {1} is no longer running, delete {2} first." -f $holder, $procId, $LockPath)
    Write-Log 'Exit code 2'
    exit 2
}
Set-Content -Path $LockPath -Value @("pid=$PID", "layout=$LayoutName") -Encoding UTF8

#-----------------------------------------------------------------------------
# [1] Check monitors
#-----------------------------------------------------------------------------
Write-Step 1 'running' 'Check monitors'
$live = Get-Live
$absent = @($Summary.monitors | Where-Object { $_.on -and (Get-State $live $_.devicePath) -eq 'Absent' })
foreach ($m in $Summary.monitors) { Write-Log ('  {0}: {1}' -f $m.label, (Get-State $live $m.devicePath)) }
if ($absent.Count -gt 0) {
    $names = ($absent | ForEach-Object { $_.label }) -join ', '
    Write-Failure 1 'Check monitors' ('press the input button on {0}, or plug it in, then switch again' -f $names) ("Absent: {0}" -f $names)
    Exit-Switch 2
}
Write-Step 1 'done' 'Check monitors'

{{STEPS_BEFORE_PS}}
#-----------------------------------------------------------------------------
# Apply arrangement
#-----------------------------------------------------------------------------
Write-Step $ApplyStep 'running' 'Apply arrangement'
$pathBytes = [Convert]::FromBase64String($Arrangement.paths)
$modeBytes = [Convert]::FromBase64String($Arrangement.modes)
$current = [LayoutswapSwitch.Api]::CurrentAdapters()
[LayoutswapSwitch.Api]::Remap($pathBytes, 72, 0, [string[]]$Arrangement.sourceAdapters, $current)
[LayoutswapSwitch.Api]::Remap($pathBytes, 72, 20, [string[]]$Arrangement.targetAdapters, $current)
[LayoutswapSwitch.Api]::Remap($modeBytes, 64, 8, [string[]]$Arrangement.modeAdapters, $current)
$rc = [LayoutswapSwitch.Api]::Apply($pathBytes, $modeBytes, $true)
if ($rc -ne 0) { Stop-Apply $ArrangeAgain 'Windows refused the arrangement' $rc }
Write-Log '  validated'
if ($ValidateOnly) {
    Write-Step $ApplyStep 'skipped' 'Apply arrangement: validated only'
} else {
    $rc = [LayoutswapSwitch.Api]::Apply($pathBytes, $modeBytes, $false)
    if ($rc -ne 0) { Stop-Apply ('try the switch again') 'Windows could not apply the arrangement' $rc }
    Write-Log '  applied'
    Start-Sleep -Seconds $ApplySettleSeconds
    Write-Step $ApplyStep 'done' 'Apply arrangement'
}

{{STEPS_AFTER_PS}}
#-----------------------------------------------------------------------------
# Verify
#-----------------------------------------------------------------------------
Write-Step $VerifyStep 'running' 'Verify'
$live = Get-Live
$problems = New-Object System.Collections.Generic.List[string]
foreach ($m in $Summary.monitors) {
    $state = Get-State $live $m.devicePath
    if ($m.on -and $state -ne 'Active') { $problems.Add(('{0} is not on' -f $m.label)); continue }
    if (-not $m.on -and $state -eq 'Active') { $problems.Add(('{0} is on but should be off' -f $m.label)); continue }
    if (-not $m.on) { continue }
    $got = @($live.monitors | Where-Object { $_.devicePath -eq $m.devicePath }) | Select-Object -First 1
    if ($got.hasMode -and ($got.x -ne $m.x -or $got.y -ne $m.y)) { $problems.Add(('{0} landed at {1},{2} instead of {3},{4}' -f $m.label, $got.x, $got.y, $m.x, $m.y)) }
    if ($got.hasMode -and ($got.width -ne $m.width -or $got.height -ne $m.height)) { $problems.Add(('{0} is {1}x{2} instead of {3}x{4}' -f $m.label, $got.width, $got.height, $m.width, $m.height)) }
}
if ($problems.Count -gt 0 -and -not $ValidateOnly) {
    Write-Failure $VerifyStep 'Verify' 'open the log, then try the switch again' ($problems -join ', ')
    Exit-Switch 1
}
Write-Step $VerifyStep 'done' 'Verify'
Write-Log "Switched to $LayoutName."
Exit-Switch 0
"##;


/// The whole switch template: its parts in order.
pub open spec fn switch_template() -> Seq<char> {
    SWITCH_OPENING@ + SWITCH_HEADER_LINE@ + SWITCH_SETTINGS@ + SWITCH_ROOT_LINE@ + SWITCH_COUNT_LINE@
        + SWITCH_APPLY_LINE@ + SWITCH_VERIFY_LINE@ + SWITCH_ON_LIST@ + SWITCH_OFF_LIST@ + SWITCH_BODY@
}

/// The switch template as characters, ready to be filled.
pub fn switch_template_chars() -> (r: Vec<char>)
    ensures
        r@ == switch_template(),
{
    let mut r: Vec<char> = Vec::new();
    append_str(&mut r, SWITCH_OPENING);
    append_str(&mut r, SWITCH_HEADER_LINE);
    append_str(&mut r, SWITCH_SETTINGS);
    append_str(&mut r, SWITCH_ROOT_LINE);
    append_str(&mut r, SWITCH_COUNT_LINE);
    append_str(&mut r, SWITCH_APPLY_LINE);
    append_str(&mut r, SWITCH_VERIFY_LINE);
    append_str(&mut r, SWITCH_ON_LIST);
    append_str(&mut r, SWITCH_OFF_LIST);
    append_str(&mut r, SWITCH_BODY);
    r
}

} // verus!
