/* Raspberry Pi Pico: RP2040 with 2 MB of flash.
   The second-stage bootloader takes the first 256 bytes of it. */
MEMORY {
    BOOT2 : ORIGIN = 0x10000000, LENGTH = 0x100
    FLASH : ORIGIN = 0x10000100, LENGTH = 2048K - 0x100
    RAM   : ORIGIN = 0x20000000, LENGTH = 264K
}
