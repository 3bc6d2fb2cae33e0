use fixit::packaging::{aur_bin_pkgbuild, aur_pkgbuild, aur_source_pkgbuild, homebrew_formula};

const ABC_SHA256: &str = "ba7816bf8f01cfea414140de5dae2223b00361a396177a9cb410ff61f20015ad";

#[test]
fn aur_source_pkgbuild_hashes_the_tarball() {
    let text = aur_source_pkgbuild("0.1.0-rc1", b"abc");
    assert_eq!(aur_pkgbuild("0.1.0-rc1", ABC_SHA256), text);
    assert!(text.contains(&format!("sha256sums=('{ABC_SHA256}')")));
    assert!(!text.contains("sha256sums=('abc')"));
    let empty = aur_source_pkgbuild("1.0.0", b"");
    assert!(empty.contains("sha256sums=('e3b0c44298fc1c149afbf4c8996fb92427ae41e4649b934ca495991b7852b855')"));
}

#[test]
fn aur_pkgbuild_text() {
    let expected = "# Maintainer: Eugene Babichenko <eugene.babichenko@gmail.com>

pkgname=fixit
pkgver=0.1.0_rc1
pkgrel=1
url='https://github.com/eugene-babichenko/fixit'
pkgdesc='A utility to fix mistakes in your commands.'
license=('MIT')
arch=('x86_64' 'i686' 'aarch64' 'armv7h')
makedepends=('rust')
source=(\"$pkgname-$pkgver.tar.gz::$url/archive/v0.1.0-rc1.tar.gz\")
sha256sums=('0123')

build() {
  cd \"$pkgname-0.1.0-rc1\"
  export RUSTUP_TOOLCHAIN=stable
  export CARGO_TARGET_DIR=target
  cargo build --locked --release
}

package() {
  cd \"$pkgname-0.1.0-rc1\"
  install -Dm755 \"target/release/$pkgname\" -t \"$pkgdir/usr/bin\"
}";
    assert_eq!(expected, aur_pkgbuild("0.1.0-rc1", "0123"));
}

#[test]
fn aur_bin_pkgbuild_text() {
    let expected = "# Maintainer: Eugene Babichenko <eugene.babichenko@gmail.com>

pkgname=fixit-bin
pkgver=1.2.3_beta
pkgrel=1
url='https://github.com/eugene-babichenko/fixit'
pkgdesc='A utility to fix mistakes in your commands.'
license=('MIT')
arch=('x86_64' 'aarch64')

X

A

package() {
  install -Dm755 fixit -t \"$pkgdir/usr/bin\"
}
";
    assert_eq!(expected, aur_bin_pkgbuild("1.2.3-beta", "X", "A"));
}

#[test]
fn homebrew_formula_text() {
    let expected = "class Fixit < Formula
  desc \"A utility to fix mistakes in your commands.\"
  homepage \"https://github.com/eugene-babichenko/fixit\"
  version \"1.0.0\"

  on_macos do
    on_arm do
      ARM
    end
    on_intel do
      INTEL
    end
  end
  on_linux do
    on_intel do
      LINUX
    end
  end

  def install
    bin.install \"fixit\"
  end
end";
    assert_eq!(expected, homebrew_formula("1.0.0", "ARM", "INTEL", "LINUX"));
}
