//! The texts of the release packaging recipes (Homebrew formula, Arch `PKGBUILD`).
use vstd::prelude::*;

use crate::text::{replace_char, replace_char_str};

verus! {

/// The version as Arch Linux writes it: hyphens become underscores.
pub fn arch_version(version: &str) -> (res: String)
    ensures
        res@ == replace_char(version@, '-', "_"@),
{
    replace_char_str(version, '-', "_")
}

/// The `url` and `sha256` lines of a Homebrew formula for one platform.
pub fn homebrew_stanza(archive: &str, hash: &str) -> (res: String)
    ensures
        res@ == "url \""@ + archive@ + "\"\n      sha256 \""@ + hash@ + "\""@,
{
    let mut res = String::from_str("url \"");
    res.append(archive);
    res.append("\"\n      sha256 \"");
    res.append(hash);
    res.append("\"");
    res
}

/// The download platform name of a Linux architecture: its static (musl) build.
pub fn linux_platform(platform: &str) -> (res: String)
    ensures
        res@ == platform@ + "-unknown-linux-musl"@,
{
    let mut res = String::from_str(platform);
    res.append("-unknown-linux-musl");
    res
}

/// The common prefix of the release download URLs of a version and platform.
pub fn download_prefix(version: &str, platform: &str) -> (res: String)
    ensures
        res@ == "https://github.com/eugene-babichenko/fixit/releases/download/v"@ + version@
            + "/fixit-v"@ + version@ + "-"@ + platform@,
{
    let mut res = String::from_str("https://github.com/eugene-babichenko/fixit/releases/download/v");
    res.append(version);
    res.append("/fixit-v");
    res.append(version);
    res.append("-");
    res.append(platform);
    res
}

/// The `source_<platform>` and `sha256sums_<platform>` lines of a binary `PKGBUILD`.
pub fn aur_bin_stanza(version: &str, platform: &str, archive: &str, hash: &str) -> (res: String)
    ensures
        res@ == "source_"@ + platform@ + "=('fixit-"@ + platform@ + "-"@ + version@ + ".tar.gz::"@
            + archive@ + "')\nsha256sums_"@ + platform@ + "=('"@ + hash@ + "')"@,
{
    let mut res = String::from_str("source_");
    res.append(platform);
    res.append("=('fixit-");
    res.append(platform);
    res.append("-");
    res.append(version);
    res.append(".tar.gz::");
    res.append(archive);
    res.append("')\nsha256sums_");
    res.append(platform);
    res.append("=('");
    res.append(hash);
    res.append("')");
    res
}


/// The digit is a lower-case hexadecimal digit.
pub open spec fn is_lower_hex_digit(c: char) -> bool {
    ('0' <= c && c <= '9') || ('a' <= c && c <= 'f')
}

/// The SHA-256 digest of `data`, written in hexadecimal with `hex::encode`.
pub uninterp spec fn sha256_hex_of(data: Seq<u8>) -> Seq<char>;

/// Hashes `data` with `sha2::Sha256` (`Digest::digest`) and writes the 32-byte digest with
/// `hex::encode`, two lower-case hexadecimal digits per byte. The contract claims that the text is
/// `sha256_hex_of` of the bytes, that it has 64 characters and that each is a lower-case
/// hexadecimal digit; nothing more of the digest is stated.
#[verifier::external_body]
pub(crate) fn sha256_hex(data: &[u8]) -> (res: String)
    ensures
        res@ == sha256_hex_of(data@),
        res@.len() == 64,
        forall|i: int| 0 <= i < res@.len() ==> is_lower_hex_digit(#[trigger] res@[i]),
{
    hex::encode(<sha2::Sha256 as sha2::Digest>::digest(data))
}

/// The `PKGBUILD` that builds the release `version` from its source tarball, whose SHA-256 checksum is
/// `checksum` (in hex).
pub open spec fn pkgbuild_text(version: Seq<char>, checksum: Seq<char>) -> Seq<char> {
    "# Maintainer: Eugene Babichenko <eugene.babichenko@gmail.com>\n\npkgname=fixit\npkgver="@
        + replace_char(version, '-', "_"@)
        + "\npkgrel=1\nurl='https://github.com/eugene-babichenko/fixit'\npkgdesc='A utility to fix mistakes in your commands.'\nlicense=('MIT')\narch=('x86_64' 'i686' 'aarch64' 'armv7h')\nmakedepends=('rust')\nsource=(\"$pkgname-$pkgver.tar.gz::$url/archive/v"@
        + version
        + ".tar.gz\")\nsha256sums=('"@
        + checksum
        + "')\n\nbuild() {\n  cd \"$pkgname-"@
        + version
        + "\"\n  export RUSTUP_TOOLCHAIN=stable\n  export CARGO_TARGET_DIR=target\n  cargo build --locked --release\n}\n\npackage() {\n  cd \"$pkgname-"@
        + version
        + "\"\n  install -Dm755 \"target/release/$pkgname\" -t \"$pkgdir/usr/bin\"\n}"@
}

/// Writes the source `PKGBUILD` of the release `version`, whose tarball has the SHA-256 checksum
/// `checksum`.
pub fn aur_pkgbuild(version: &str, checksum: &str) -> (res: String)
    ensures
        res@ == pkgbuild_text(version@, checksum@),
{
    let arch = arch_version(version);
    let mut res = String::from_str("# Maintainer: Eugene Babichenko <eugene.babichenko@gmail.com>\n\npkgname=fixit\npkgver=");
    res.append(arch.as_str());
    res.append("\npkgrel=1\nurl='https://github.com/eugene-babichenko/fixit'\npkgdesc='A utility to fix mistakes in your commands.'\nlicense=('MIT')\narch=('x86_64' 'i686' 'aarch64' 'armv7h')\nmakedepends=('rust')\nsource=(\"$pkgname-$pkgver.tar.gz::$url/archive/v");
    res.append(version);
    res.append(".tar.gz\")\nsha256sums=('");
    res.append(checksum);
    res.append("')\n\nbuild() {\n  cd \"$pkgname-");
    res.append(version);
    res.append("\"\n  export RUSTUP_TOOLCHAIN=stable\n  export CARGO_TARGET_DIR=target\n  cargo build --locked --release\n}\n\npackage() {\n  cd \"$pkgname-");
    res.append(version);
    res.append("\"\n  install -Dm755 \"target/release/$pkgname\" -t \"$pkgdir/usr/bin\"\n}");
    res
}

/// The `PKGBUILD` that installs the prebuilt release `version`, with the source stanzas `x86_64` and
/// `aarch64` (see `aur_bin_stanza`).
pub open spec fn bin_pkgbuild_text(version: Seq<char>, x86_64: Seq<char>, aarch64: Seq<char>) -> Seq<char> {
    "# Maintainer: Eugene Babichenko <eugene.babichenko@gmail.com>\n\npkgname=fixit-bin\npkgver="@
        + replace_char(version, '-', "_"@)
        + "\npkgrel=1\nurl='https://github.com/eugene-babichenko/fixit'\npkgdesc='A utility to fix mistakes in your commands.'\nlicense=('MIT')\narch=('x86_64' 'aarch64')\n\n"@
        + x86_64
        + "\n\n"@
        + aarch64
        + "\n\npackage() {\n  install -Dm755 fixit -t \"$pkgdir/usr/bin\"\n}\n"@
}

/// Writes the binary `PKGBUILD` of the release `version` from its two platform stanzas.
pub fn aur_bin_pkgbuild(version: &str, x86_64: &str, aarch64: &str) -> (res: String)
    ensures
        res@ == bin_pkgbuild_text(version@, x86_64@, aarch64@),
{
    let arch = arch_version(version);
    let mut res = String::from_str("# Maintainer: Eugene Babichenko <eugene.babichenko@gmail.com>\n\npkgname=fixit-bin\npkgver=");
    res.append(arch.as_str());
    res.append("\npkgrel=1\nurl='https://github.com/eugene-babichenko/fixit'\npkgdesc='A utility to fix mistakes in your commands.'\nlicense=('MIT')\narch=('x86_64' 'aarch64')\n\n");
    res.append(x86_64);
    res.append("\n\n");
    res.append(aarch64);
    res.append("\n\npackage() {\n  install -Dm755 fixit -t \"$pkgdir/usr/bin\"\n}\n");
    res
}

/// The Homebrew formula of the release `version`, with the download stanzas of the three platforms
/// (see `homebrew_stanza`).
pub open spec fn formula_text(version: Seq<char>, aarch64_apple: Seq<char>, x86_64_apple: Seq<char>, linux: Seq<char>) -> Seq<char> {
    "class Fixit < Formula\n  desc \"A utility to fix mistakes in your commands.\"\n  homepage \"https://github.com/eugene-babichenko/fixit\"\n  version \""@
        + version
        + "\"\n\n  on_macos do\n    on_arm do\n      "@
        + aarch64_apple
        + "\n    end\n    on_intel do\n      "@
        + x86_64_apple
        + "\n    end\n  end\n  on_linux do\n    on_intel do\n      "@
        + linux
        + "\n    end\n  end\n\n  def install\n    bin.install \"fixit\"\n  end\nend"@
}

/// Writes the Homebrew formula of the release `version` from its three platform stanzas.
pub fn homebrew_formula(version: &str, aarch64_apple: &str, x86_64_apple: &str, linux: &str) -> (res: String)
    ensures
        res@ == formula_text(version@, aarch64_apple@, x86_64_apple@, linux@),
{
    let mut res = String::from_str("class Fixit < Formula\n  desc \"A utility to fix mistakes in your commands.\"\n  homepage \"https://github.com/eugene-babichenko/fixit\"\n  version \"");
    res.append(version);
    res.append("\"\n\n  on_macos do\n    on_arm do\n      ");
    res.append(aarch64_apple);
    res.append("\n    end\n    on_intel do\n      ");
    res.append(x86_64_apple);
    res.append("\n    end\n  end\n  on_linux do\n    on_intel do\n      ");
    res.append(linux);
    res.append("\n    end\n  end\n\n  def install\n    bin.install \"fixit\"\n  end\nend");
    res
}

/// Writes the source `PKGBUILD` of the release `version` for its source tarball `tarball`, with the
/// tarball's SHA-256 checksum.
pub fn aur_source_pkgbuild(version: &str, tarball: &[u8]) -> (res: String)
    ensures
        res@ == pkgbuild_text(version@, sha256_hex_of(tarball@)),
{
    let checksum = sha256_hex(tarball);
    aur_pkgbuild(version, checksum.as_str())
}

} // verus!
